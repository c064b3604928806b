//! Setting up device identity certificates at boot.
//!
//! The IDevID certificates are read from OTP and installed into Caliptra, then
//! the certificate slots get their endorsements:
//!
//! - slot 0 (vendor): a fixed root certificate, read-only;
//! - slot 1 (owner) and slot 2 (tenant): managed in flash, initially empty.
//!
//! The ECC-384 certificate and the vendor endorsement are required. The
//! ML-DSA-87 certificate is installed if there is one; whatever goes wrong with
//! it is only warned about.
//!
//! Boot is a sequence of steps. The caller carries out the pending action and
//! reports how it went.

use crate::bytes::{law_bytes_integer_round_trip, le32_bytes, low32};
use crate::otp::{
    cert_der_len, law_certificate_length, mldsa_cert_der_len, otp_byte, otp_bytes, otp_word,
    wanted, OtpReader, ECC_DEVID_CERT_SIZE, OTP_IDEVID_ECC_PARTITION, OTP_IDEVID_MLDSA_PARTITION,
};
use vstd::prelude::*;

verus! {

/// Size of the temporary pool that holds an ML-DSA certificate and a mailbox
/// response during boot.
pub const CERT_STORE_BOOT_SCRATCH_SIZE: usize = 9 * 1024;

/// Store slot of the vendor.
pub const VENDOR_STORE_SLOT: usize = 0;

/// Key pair of the vendor's endorsement.
pub const VENDOR_KEY_PAIR_ID: u8 = 0;

/// Store slot of the owner.
pub const OWNER_STORE_SLOT: usize = 1;

/// SPDM slot of the owner.
pub const OWNER_SPDM_SLOT: u8 = 2;

/// Store slot of the tenant.
pub const TENANT_STORE_SLOT: usize = 2;

/// SPDM slot of the tenant.
pub const TENANT_SPDM_SLOT: u8 = 3;

/// Number of managed slots.
pub const MANAGED_SLOT_COUNT: usize = 2;

/// Why a step of boot failed.
#[derive(Clone, Copy, Debug, PartialEq, Eq, Structural)]
pub enum McuError {
    OutOfMemory,
    InternalBug,
    /// An error of a platform service, by its code.
    Service(u32),
}

/// The flash partition of the managed slots.
#[derive(Clone, Copy, Debug, PartialEq, Eq, Structural)]
pub struct FlashPartition {
    pub driver_num: u32,
    pub size: usize,
}

/// What boot has to set up besides the IDevID certificates.
#[derive(Clone, Copy, Debug, PartialEq, Eq, Structural)]
pub struct BootPlan {
    /// Whether SPDM is served, so that slots need endorsements.
    pub spdm: bool,
    /// Where the managed slots live, if there are any.
    pub managed: Option<FlashPartition>,
}

/// A managed endorsement.
#[derive(Clone, Copy, Debug, PartialEq, Eq, Structural)]
pub struct ManagedSlot {
    pub store_slot: usize,
    pub spdm_slot: u8,
    pub driver_num: u32,
    /// Start of its region in the partition.
    pub offset: usize,
    /// Size of its region.
    pub len: usize,
}

impl FlashPartition {
    /// The owner's slot: the first half of the partition.
    pub open spec fn owner(self) -> ManagedSlot {
        ManagedSlot {
            store_slot: OWNER_STORE_SLOT,
            spdm_slot: OWNER_SPDM_SLOT,
            driver_num: self.driver_num,
            offset: 0,
            len: self.size / MANAGED_SLOT_COUNT,
        }
    }

    /// The tenant's slot: the second half.
    pub open spec fn tenant(self) -> ManagedSlot {
        ManagedSlot {
            store_slot: TENANT_STORE_SLOT,
            spdm_slot: TENANT_SPDM_SLOT,
            driver_num: self.driver_num,
            offset: self.size / MANAGED_SLOT_COUNT,
            len: self.size / MANAGED_SLOT_COUNT,
        }
    }

    /// The owner's slot.
    pub fn owner_slot(&self) -> (r: ManagedSlot)
        ensures
            r == self.owner(),
    {
        ManagedSlot {
            store_slot: OWNER_STORE_SLOT,
            spdm_slot: OWNER_SPDM_SLOT,
            driver_num: self.driver_num,
            offset: 0,
            len: self.size / MANAGED_SLOT_COUNT,
        }
    }

    /// The tenant's slot.
    pub fn tenant_slot(&self) -> (r: ManagedSlot)
        ensures
            r == self.tenant(),
    {
        ManagedSlot {
            store_slot: TENANT_STORE_SLOT,
            spdm_slot: TENANT_SPDM_SLOT,
            driver_num: self.driver_num,
            offset: self.size / MANAGED_SLOT_COUNT,
            len: self.size / MANAGED_SLOT_COUNT,
        }
    }
}

/// The managed regions lie in the partition and do not overlap.
pub proof fn law_managed_regions(partition: FlashPartition)
    ensures
        partition.owner().offset + partition.owner().len <= partition.tenant().offset,
        partition.tenant().offset + partition.tenant().len <= partition.size,
        partition.owner().len == partition.tenant().len,
        partition.owner().spdm_slot != partition.tenant().spdm_slot,
        partition.owner().store_slot != partition.tenant().store_slot,
{
}

/// How far boot has come.
#[derive(Clone, Copy, Debug, PartialEq, Eq, Structural)]
pub enum BootStep {
    ReserveScratch,
    ReadEcc,
    InstallEcc,
    ReadMldsaHeader,
    /// The size of the ML-DSA partition is wanted; its first word is known.
    SizeMldsaPartition(u32),
    /// Memory for a certificate of that size is wanted.
    AllocMldsa(usize),
    ReadMldsa,
    InstallMldsa,
    /// The ML-DSA certificate was not installed.
    WarnMldsa(McuError),
    EndorseVendor,
    ManageOwner(FlashPartition),
    ManageTenant(FlashPartition),
    Complete,
    Failed(McuError),
}

/// What is to be done next.
pub enum BootAction<'a> {
    /// Reserve that much temporary memory.
    ReserveScratch(usize),
    /// Read a word from OTP.
    ReadOtp { partition: u32, offset: u32 },
    /// Find out the size of an OTP partition.
    PartitionSize(u32),
    /// Allocate that much for a certificate.
    AllocCert(usize),
    /// Install the ECC-384 IDevID certificate.
    InstallEcc(&'a [u8]),
    /// Install the ML-DSA-87 IDevID certificate.
    InstallMldsa(&'a [u8]),
    /// Warn that the ML-DSA-87 certificate was not installed.
    Warn(McuError),
    /// Set the fixed endorsement of a slot.
    SetEndorsementChain { slot: usize, key_pair_id: u8 },
    /// Set a managed endorsement.
    SetManagedEndorsement(ManagedSlot),
    /// Boot is over.
    Finished(Result<(), McuError>),
}

/// How the pending action went.
#[derive(Clone, Copy, Debug, PartialEq, Eq, Structural)]
pub enum BootEvent {
    /// It succeeded.
    Completed,
    /// A word or a size was read.
    Value(u32),
    /// It failed.
    Failed(McuError),
}

/// The state of boot: its plan and step, the certificate bytes read so far and
/// how many are to be read.
pub struct Boot {
    pub plan: BootPlan,
    pub step: BootStep,
    pub cert: Seq<u8>,
    pub goal: nat,
}

impl Boot {
    /// Boot before its first step.
    pub open spec fn fresh(plan: BootPlan) -> Boot {
        Boot { plan, step: BootStep::ReserveScratch, cert: Seq::empty(), goal: 0 }
    }

    /// Boot in another step.
    pub open spec fn at(self, step: BootStep) -> Boot {
        Boot { step, ..self }
    }

    /// Boot that begins to read a certificate of `goal` bytes.
    pub open spec fn reading(self, step: BootStep, goal: nat) -> Boot {
        Boot { step, cert: Seq::empty(), goal, ..self }
    }

    /// Boot with the next word read; in `following` if that was the last one.
    pub open spec fn with_word(self, word: u32, following: BootStep) -> Boot {
        let cert = self.cert + le32_bytes(word).take(wanted(self.goal, self.cert.len()) as int);
        Boot {
            cert,
            step: if cert.len() < self.goal {
                self.step
            } else {
                following
            },
            ..self
        }
    }

    /// Boot that is done with the IDevID certificates.
    pub open spec fn identity_done(self) -> Boot {
        self.at(
            if self.plan.spdm {
                BootStep::EndorseVendor
            } else {
                BootStep::Complete
            },
        )
    }

    /// What follows when the pending action went as `event` says. An event that
    /// does not belong to the pending action changes nothing.
    pub open spec fn after(self, event: BootEvent) -> Boot {
        match (self.step, event) {
            (BootStep::ReserveScratch, BootEvent::Completed) => self.reading(
                BootStep::ReadEcc,
                ECC_DEVID_CERT_SIZE as nat,
            ),
            (BootStep::ReserveScratch, BootEvent::Failed(_)) => self.at(
                BootStep::Failed(McuError::OutOfMemory),
            ),
            (BootStep::ReadEcc, BootEvent::Value(word)) => self.with_word(
                word,
                BootStep::InstallEcc,
            ),
            (BootStep::ReadEcc, BootEvent::Failed(_)) => self.at(
                BootStep::Failed(McuError::InternalBug),
            ),
            (BootStep::InstallEcc, BootEvent::Completed) => self.at(BootStep::ReadMldsaHeader),
            (BootStep::InstallEcc, BootEvent::Failed(e)) => self.at(BootStep::Failed(e)),
            (BootStep::ReadMldsaHeader, BootEvent::Value(word)) => self.at(
                BootStep::SizeMldsaPartition(word),
            ),
            (BootStep::ReadMldsaHeader, BootEvent::Failed(_)) => self.at(
                BootStep::WarnMldsa(McuError::InternalBug),
            ),
            (BootStep::SizeMldsaPartition(word), BootEvent::Value(size)) => match cert_der_len(
                le32_bytes(word),
                size as nat,
            ) {
                Some(n) => self.at(BootStep::AllocMldsa(n as usize)),
                None => self.identity_done(),
            },
            (BootStep::SizeMldsaPartition(_), BootEvent::Failed(_)) => self.at(
                BootStep::WarnMldsa(McuError::InternalBug),
            ),
            (BootStep::AllocMldsa(n), BootEvent::Completed) => self.reading(
                BootStep::ReadMldsa,
                n as nat,
            ),
            (BootStep::AllocMldsa(_), BootEvent::Failed(e)) => self.at(BootStep::WarnMldsa(e)),
            (BootStep::ReadMldsa, BootEvent::Value(word)) => self.with_word(
                word,
                BootStep::InstallMldsa,
            ),
            (BootStep::ReadMldsa, BootEvent::Failed(_)) => self.at(
                BootStep::WarnMldsa(McuError::InternalBug),
            ),
            (BootStep::InstallMldsa, BootEvent::Completed) => self.identity_done(),
            (BootStep::InstallMldsa, BootEvent::Failed(e)) => self.at(BootStep::WarnMldsa(e)),
            (BootStep::WarnMldsa(_), BootEvent::Completed) => self.identity_done(),
            (BootStep::EndorseVendor, BootEvent::Completed) => match self.plan.managed {
                Some(partition) => self.at(BootStep::ManageOwner(partition)),
                None => self.at(BootStep::Complete),
            },
            (BootStep::EndorseVendor, BootEvent::Failed(e)) => self.at(BootStep::Failed(e)),
            (BootStep::ManageOwner(partition), BootEvent::Completed) => self.at(
                BootStep::ManageTenant(partition),
            ),
            (BootStep::ManageOwner(_), BootEvent::Failed(e)) => self.at(BootStep::Failed(e)),
            (BootStep::ManageTenant(_), BootEvent::Completed) => self.at(BootStep::Complete),
            (BootStep::ManageTenant(_), BootEvent::Failed(e)) => self.at(BootStep::Failed(e)),
            _ => self,
        }
    }
}

/// Boot of the certificate store.
pub struct CertStoreBoot {
    plan: BootPlan,
    step: BootStep,
    reader: OtpReader,
}

impl View for CertStoreBoot {
    type V = Boot;

    closed spec fn view(&self) -> Boot {
        Boot { plan: self.plan, step: self.step, cert: self.reader@, goal: self.reader.goal() }
    }
}

/// Begins to set up the certificate store.
pub fn boot_init(plan: BootPlan) -> (r: CertStoreBoot)
    ensures
        r@ == Boot::fresh(plan),
{
    CertStoreBoot { plan, step: BootStep::ReserveScratch, reader: OtpReader::new(0) }
}

impl CertStoreBoot {
    /// What is to be done next.
    pub fn pending(&self) -> (r: BootAction<'_>)
        ensures
            match self@.step {
                BootStep::ReserveScratch => r == BootAction::ReserveScratch(
                    CERT_STORE_BOOT_SCRATCH_SIZE,
                ),
                BootStep::ReadEcc => r == (BootAction::ReadOtp {
                    partition: OTP_IDEVID_ECC_PARTITION,
                    offset: low32(self@.cert.len() as int),
                }),
                BootStep::InstallEcc => r matches BootAction::InstallEcc(b) && b@ == self@.cert,
                BootStep::ReadMldsaHeader => r == (BootAction::ReadOtp {
                    partition: OTP_IDEVID_MLDSA_PARTITION,
                    offset: 0,
                }),
                BootStep::SizeMldsaPartition(_) => r == BootAction::PartitionSize(
                    OTP_IDEVID_MLDSA_PARTITION,
                ),
                BootStep::AllocMldsa(n) => r == BootAction::AllocCert(n),
                BootStep::ReadMldsa => r == (BootAction::ReadOtp {
                    partition: OTP_IDEVID_MLDSA_PARTITION,
                    offset: low32(self@.cert.len() as int),
                }),
                BootStep::InstallMldsa => r matches BootAction::InstallMldsa(b) && b@
                    == self@.cert,
                BootStep::WarnMldsa(e) => r == BootAction::Warn(e),
                BootStep::EndorseVendor => r == (BootAction::SetEndorsementChain {
                    slot: VENDOR_STORE_SLOT,
                    key_pair_id: VENDOR_KEY_PAIR_ID,
                }),
                BootStep::ManageOwner(p) => r == BootAction::SetManagedEndorsement(p.owner()),
                BootStep::ManageTenant(p) => r == BootAction::SetManagedEndorsement(
                    p.tenant(),
                ),
                BootStep::Complete => r == BootAction::Finished(Ok(())),
                BootStep::Failed(e) => r == BootAction::Finished(Err(e)),
            },
    {
        match self.step {
            BootStep::ReserveScratch => BootAction::ReserveScratch(CERT_STORE_BOOT_SCRATCH_SIZE),
            BootStep::ReadEcc => BootAction::ReadOtp {
                partition: OTP_IDEVID_ECC_PARTITION,
                offset: self.reader.offset(),
            },
            BootStep::InstallEcc => BootAction::InstallEcc(self.reader.bytes()),
            BootStep::ReadMldsaHeader => BootAction::ReadOtp {
                partition: OTP_IDEVID_MLDSA_PARTITION,
                offset: 0,
            },
            BootStep::SizeMldsaPartition(_) => BootAction::PartitionSize(
                OTP_IDEVID_MLDSA_PARTITION,
            ),
            BootStep::AllocMldsa(n) => BootAction::AllocCert(n),
            BootStep::ReadMldsa => BootAction::ReadOtp {
                partition: OTP_IDEVID_MLDSA_PARTITION,
                offset: self.reader.offset(),
            },
            BootStep::InstallMldsa => BootAction::InstallMldsa(self.reader.bytes()),
            BootStep::WarnMldsa(e) => BootAction::Warn(e),
            BootStep::EndorseVendor => BootAction::SetEndorsementChain {
                slot: VENDOR_STORE_SLOT,
                key_pair_id: VENDOR_KEY_PAIR_ID,
            },
            BootStep::ManageOwner(p) => BootAction::SetManagedEndorsement(p.owner_slot()),
            BootStep::ManageTenant(p) => BootAction::SetManagedEndorsement(p.tenant_slot()),
            BootStep::Complete => BootAction::Finished(Ok(())),
            BootStep::Failed(e) => BootAction::Finished(Err(e)),
        }
    }

    /// Takes note of how the pending action went.
    pub fn report(&mut self, event: BootEvent)
        ensures
            final(self)@ == old(self)@.after(event),
    {
        match self.step {
            BootStep::ReserveScratch => match event {
                BootEvent::Completed => {
                    self.reader = OtpReader::new(ECC_DEVID_CERT_SIZE);
                    self.step = BootStep::ReadEcc;
                },
                BootEvent::Failed(_) => {
                    self.step = BootStep::Failed(McuError::OutOfMemory);
                },
                BootEvent::Value(_) => {},
            },
            BootStep::ReadEcc | BootStep::InstallEcc => self.populate_idev_cert_from_otp_ecc(event),
            BootStep::ReadMldsaHeader | BootStep::SizeMldsaPartition(_) | BootStep::AllocMldsa(_)
            | BootStep::ReadMldsa | BootStep::InstallMldsa | BootStep::WarnMldsa(
                _,
            ) => self.populate_idev_cert_from_otp_mldsa(event),
            BootStep::EndorseVendor | BootStep::ManageOwner(_) | BootStep::ManageTenant(
                _,
            ) => self.setup_endorsements(event),
            BootStep::Complete | BootStep::Failed(_) => {},
        }
    }

    /// Takes the next word of a certificate; goes on to `following` if that was
    /// the last one.
    fn read_otp_range(&mut self, word: u32, following: BootStep)
        ensures
            final(self)@ == old(self)@.with_word(word, following),
    {
        self.reader.take_word(word);
        if self.reader.next_offset().is_none() {
            self.step = following;
        }
    }

    /// The steps of the ECC-384 certificate.
    fn populate_idev_cert_from_otp_ecc(&mut self, event: BootEvent)
        requires
            old(self)@.step is ReadEcc || old(self)@.step is InstallEcc,
        ensures
            final(self)@ == old(self)@.after(event),
    {
        match (self.step, event) {
            (BootStep::ReadEcc, BootEvent::Value(word)) => {
                self.read_otp_range(word, BootStep::InstallEcc);
            },
            (BootStep::ReadEcc, BootEvent::Failed(_)) => {
                self.step = BootStep::Failed(McuError::InternalBug);
            },
            (BootStep::InstallEcc, BootEvent::Completed) => {
                self.step = BootStep::ReadMldsaHeader;
            },
            (BootStep::InstallEcc, BootEvent::Failed(e)) => {
                self.step = BootStep::Failed(e);
            },
            _ => {},
        }
    }

    /// Leaves the IDevID certificates behind.
    fn finish_identity(&mut self)
        ensures
            final(self)@ == old(self)@.identity_done(),
    {
        self.step = if self.plan.spdm {
            BootStep::EndorseVendor
        } else {
            BootStep::Complete
        };
    }

    /// The steps of the ML-DSA-87 certificate.
    fn populate_idev_cert_from_otp_mldsa(&mut self, event: BootEvent)
        requires
            match old(self)@.step {
                BootStep::ReadMldsaHeader => true,
                BootStep::SizeMldsaPartition(_) => true,
                BootStep::AllocMldsa(_) => true,
                BootStep::ReadMldsa => true,
                BootStep::InstallMldsa => true,
                BootStep::WarnMldsa(_) => true,
                _ => false,
            },
        ensures
            final(self)@ == old(self)@.after(event),
    {
        match (self.step, event) {
            (BootStep::ReadMldsaHeader, BootEvent::Value(word)) => {
                self.step = BootStep::SizeMldsaPartition(word);
            },
            (BootStep::ReadMldsaHeader, BootEvent::Failed(_)) => {
                self.step = BootStep::WarnMldsa(McuError::InternalBug);
            },
            (BootStep::SizeMldsaPartition(word), BootEvent::Value(size)) => {
                match mldsa_cert_der_len(word, size as usize) {
                    Some(n) => {
                        self.step = BootStep::AllocMldsa(n);
                    },
                    None => {
                        self.finish_identity();
                    },
                }
            },
            (BootStep::SizeMldsaPartition(_), BootEvent::Failed(_)) => {
                self.step = BootStep::WarnMldsa(McuError::InternalBug);
            },
            (BootStep::AllocMldsa(n), BootEvent::Completed) => {
                self.reader = OtpReader::new(n);
                self.step = BootStep::ReadMldsa;
            },
            (BootStep::AllocMldsa(_), BootEvent::Failed(e)) => {
                self.step = BootStep::WarnMldsa(e);
            },
            (BootStep::ReadMldsa, BootEvent::Value(word)) => {
                self.read_otp_range(word, BootStep::InstallMldsa);
            },
            (BootStep::ReadMldsa, BootEvent::Failed(_)) => {
                self.step = BootStep::WarnMldsa(McuError::InternalBug);
            },
            (BootStep::InstallMldsa, BootEvent::Completed) => {
                self.finish_identity();
            },
            (BootStep::InstallMldsa, BootEvent::Failed(e)) => {
                self.step = BootStep::WarnMldsa(e);
            },
            (BootStep::WarnMldsa(_), BootEvent::Completed) => {
                self.finish_identity();
            },
            _ => {},
        }
    }

    /// The steps of the endorsements.
    fn setup_endorsements(&mut self, event: BootEvent)
        requires
            match old(self)@.step {
                BootStep::EndorseVendor => true,
                BootStep::ManageOwner(_) => true,
                BootStep::ManageTenant(_) => true,
                _ => false,
            },
        ensures
            final(self)@ == old(self)@.after(event),
    {
        match (self.step, event) {
            (_, BootEvent::Failed(e)) => {
                self.step = BootStep::Failed(e);
            },
            (BootStep::EndorseVendor, BootEvent::Completed) => {
                self.step = match self.plan.managed {
                    Some(partition) => BootStep::ManageOwner(partition),
                    None => BootStep::Complete,
                };
            },
            (BootStep::ManageOwner(partition), BootEvent::Completed) => {
                self.step = BootStep::ManageTenant(partition);
            },
            (BootStep::ManageTenant(_), BootEvent::Completed) => {
                self.step = BootStep::Complete;
            },
            _ => {},
        }
    }
}

/// Boot after `events`.
pub open spec fn boot_after(plan: BootPlan, events: Seq<BootEvent>) -> Boot
    decreases events.len(),
{
    if events.len() == 0 {
        Boot::fresh(plan)
    } else {
        boot_after(plan, events.drop_last()).after(events.last())
    }
}

/// Whether the action of `step` was carried out in the course of `events`.
pub open spec fn carried_out(plan: BootPlan, events: Seq<BootEvent>, step: BootStep) -> bool {
    exists|k: int|
        0 <= k < events.len() && #[trigger] events[k] == BootEvent::Completed && boot_after(
            plan,
            events.take(k),
        ).step == step
}

/// Whether `step` is one of those that deal with the ML-DSA-87 certificate.
pub open spec fn is_mldsa_step(step: BootStep) -> bool {
    match step {
        BootStep::ReadMldsaHeader => true,
        BootStep::SizeMldsaPartition(_) => true,
        BootStep::AllocMldsa(_) => true,
        BootStep::ReadMldsa => true,
        BootStep::InstallMldsa => true,
        BootStep::WarnMldsa(_) => true,
        _ => false,
    }
}

/// Whether `step` comes after the vendor endorsement.
pub open spec fn is_managed_step(step: BootStep) -> bool {
    step is ManageOwner || step is ManageTenant
}

/// Boot completes only with the ECC-384 certificate installed and, where SPDM
/// is served, with the vendor's endorsement set.
pub proof fn law_complete_boot(plan: BootPlan, events: Seq<BootEvent>)
    requires
        boot_after(plan, events).step == BootStep::Complete,
    ensures
        carried_out(plan, events, BootStep::InstallEcc),
        plan.spdm ==> carried_out(plan, events, BootStep::EndorseVendor),
{
    lemma_boot_progress(plan, events);
}

/// Whatever happens to the ML-DSA-87 certificate, boot does not fail by it.
pub proof fn law_mldsa_is_best_effort(boot: Boot, event: BootEvent)
    requires
        is_mldsa_step(boot.step),
    ensures
        !(boot.after(event).step is Failed),
{
}

/// Boot fails only where memory is short, where the ECC-384 certificate cannot
/// be read or installed, or where an endorsement cannot be set; it then stays
/// failed.
pub proof fn law_failure_has_a_cause(boot: Boot, event: BootEvent)
    requires
        boot.after(event).step is Failed,
    ensures
        match boot.step {
            BootStep::ReserveScratch => boot.after(event).step == BootStep::Failed(
                McuError::OutOfMemory,
            ),
            BootStep::ReadEcc => boot.after(event).step == BootStep::Failed(McuError::InternalBug),
            BootStep::InstallEcc | BootStep::EndorseVendor | BootStep::ManageOwner(_)
            | BootStep::ManageTenant(_) => event matches BootEvent::Failed(e) && boot.after(
                event,
            ).step == BootStep::Failed(e),
            BootStep::Failed(_) => boot.after(event) == boot,
            _ => false,
        },
{
}

/// What is read of a certificate are the partition's own bytes, as long as the
/// words come from the offsets that are asked for; it is read to its end and
/// not beyond.
pub proof fn law_certificate_is_the_partitions(boot: Boot, content: Seq<u8>)
    requires
        boot.step is ReadEcc || boot.step is ReadMldsa,
        boot.cert.len() < boot.goal,
        boot.cert.len() % 4 == 0,
        boot.cert == otp_bytes(content, boot.cert.len()),
    ensures
        ({
            let next = boot.after(
                BootEvent::Value(otp_word(content, boot.cert.len() as int)),
            );
            &&& next.cert == otp_bytes(content, next.cert.len())
            &&& next.goal == boot.goal
            &&& boot.cert.len() < next.cert.len() <= boot.goal
            &&& next.step == boot.step ==> next.cert.len() < next.goal && next.cert.len() % 4 == 0
            &&& next.step != boot.step ==> next.cert.len() == boot.goal
        }),
{
    let at = boot.cert.len() as int;
    let digits = seq![
        otp_byte(content, at),
        otp_byte(content, at + 1),
        otp_byte(content, at + 2),
        otp_byte(content, at + 3),
    ];
    law_bytes_integer_round_trip(seq![0u8, 0u8], digits);
}

/// What has been done by the time boot stands where it does.
proof fn lemma_boot_progress(plan: BootPlan, events: Seq<BootEvent>)
    ensures
        boot_after(plan, events).plan == plan,
        ({
            let step = boot_after(plan, events).step;
            let past_ecc = is_mldsa_step(step) || is_managed_step(step) || step is EndorseVendor
                || step is Complete;
            &&& past_ecc ==> carried_out(plan, events, BootStep::InstallEcc)
            &&& is_managed_step(step) || (plan.spdm && step is Complete) ==> carried_out(
                plan,
                events,
                BootStep::EndorseVendor,
            )
        }),
    decreases events.len(),
{
    if events.len() > 0 {
        let front = events.drop_last();
        lemma_boot_progress(plan, front);
        assert forall|step: BootStep| #[trigger] carried_out(plan, front, step) implies carried_out(
            plan,
            events,
            step,
        ) by {
            let k = choose|k: int|
                0 <= k < front.len() && #[trigger] front[k] == BootEvent::Completed && boot_after(
                    plan,
                    front.take(k),
                ).step == step;
            assert(events.take(k) =~= front.take(k));
        }
    }
}

/// A certificate that the header in OTP announces is never passed over: memory
/// for exactly its length is asked for, whatever the length. Nothing is asked
/// for where the header announces none, and that is no fault.
pub proof fn law_announced_certificate_is_staged(boot: Boot, word: u32, size: u32, n: nat)
    requires
        boot.step == BootStep::SizeMldsaPartition(word),
    ensures
        ({
            let body = n - 4;
            let announced = 128 <= body <= 65535 && n <= size && word == 0x30 + 0x100 * 0x82
                + 0x1_0000 * (body / 0x100) + 0x100_0000 * (body % 0x100);
            let next = boot.after(BootEvent::Value(size));
            &&& announced <==> next.step == BootStep::AllocMldsa(n as usize) && 0 <= n <= usize::MAX
            &&& next.step is AllocMldsa || next == boot.identity_done()
            &&& next.cert == boot.cert && next.goal == boot.goal && next.plan == boot.plan
        }),
{
    law_certificate_length(word, size as nat, n);
    if let Some(m) = cert_der_len(le32_bytes(word), size as nat) {
        law_certificate_length(word, size as nat, m);
    }
}

/// Whether a header was seen in the course of `events` that announces no
/// certificate for its partition.
pub open spec fn saw_no_certificate(plan: BootPlan, events: Seq<BootEvent>) -> bool {
    exists|k: int|
        0 <= k < events.len() && (#[trigger] events[k] matches BootEvent::Value(size) && boot_after(
            plan,
            events.take(k),
        ).step matches BootStep::SizeMldsaPartition(word) && cert_der_len(
            le32_bytes(word),
            size as nat,
        ) is None)
}

/// Whether the lack of an ML-DSA-87 certificate was warned of in the course of
/// `events`.
pub open spec fn warned(plan: BootPlan, events: Seq<BootEvent>) -> bool {
    exists|k: int|
        0 <= k < events.len() && #[trigger] events[k] == BootEvent::Completed && boot_after(
            plan,
            events.take(k),
        ).step is WarnMldsa
}

/// Boot gets past the ML-DSA-87 certificate only with the certificate installed,
/// with a warning, or where OTP announces none.
pub proof fn law_mldsa_is_not_passed_over(plan: BootPlan, events: Seq<BootEvent>)
    requires
        ({
            let step = boot_after(plan, events).step;
            step is EndorseVendor || step is ManageOwner || step is ManageTenant || step is Complete
        }),
    ensures
        carried_out(plan, events, BootStep::InstallMldsa) || warned(plan, events)
            || saw_no_certificate(plan, events),
    decreases events.len(),
{
    if events.len() > 0 {
        let front = events.drop_last();
        let n = events.len() - 1;
        let before = boot_after(plan, front);
        assert(events.take(n) =~= front);
        assert(events[n] == events.last());
        if before.step is EndorseVendor || before.step is ManageOwner || before.step is ManageTenant
            || before.step is Complete {
            law_mldsa_is_not_passed_over(plan, front);
            if carried_out(plan, front, BootStep::InstallMldsa) {
                let k = choose|k: int|
                    0 <= k < front.len() && #[trigger] front[k] == BootEvent::Completed
                        && boot_after(plan, front.take(k)).step == BootStep::InstallMldsa;
                assert(events[k] == front[k] && events.take(k) =~= front.take(k));
            } else if warned(plan, front) {
                let k = choose|k: int|
                    0 <= k < front.len() && #[trigger] front[k] == BootEvent::Completed
                        && boot_after(plan, front.take(k)).step is WarnMldsa;
                assert(events[k] == front[k] && events.take(k) =~= front.take(k));
            } else {
                let k = choose|k: int|
                    0 <= k < front.len() && (#[trigger] front[k] matches BootEvent::Value(size)
                        && boot_after(plan, front.take(k)).step
                        matches BootStep::SizeMldsaPartition(word) && cert_der_len(
                        le32_bytes(word),
                        size as nat,
                    ) is None);
                assert(events[k] == front[k] && events.take(k) =~= front.take(k));
            }
        }
    }
}

/// How boot goes on where all goes well, step by step. What is to be read of a
/// certificate is read from its beginning; an event that is none of the pending
/// step changes nothing.
pub proof fn law_boot_goes_on(boot: Boot)
    ensures
        ({
            let done = boot.after(BootEvent::Completed);
            &&& done.plan == boot.plan
            &&& match boot.step {
                BootStep::ReserveScratch => done.step is ReadEcc && done.cert.len() == 0
                    && done.goal == 547,
                BootStep::InstallEcc => done.step is ReadMldsaHeader,
                BootStep::AllocMldsa(n) => done.step is ReadMldsa && done.cert.len() == 0
                    && done.goal == n,
                BootStep::InstallMldsa | BootStep::WarnMldsa(_) => if boot.plan.spdm {
                    done.step is EndorseVendor
                } else {
                    done.step is Complete
                },
                BootStep::EndorseVendor => match boot.plan.managed {
                    Some(partition) => done.step == BootStep::ManageOwner(partition),
                    None => done.step is Complete,
                },
                BootStep::ManageOwner(partition) => done.step == BootStep::ManageTenant(partition),
                BootStep::ManageTenant(_) => done.step is Complete,
                _ => done == boot,
            }
            &&& !(done.step is ReadEcc || done.step is ReadMldsa) ==> done.cert == boot.cert
        }),
        forall|value: u32|
            ({
                let read = #[trigger] boot.after(BootEvent::Value(value));
                &&& boot.step is ReadMldsaHeader ==> read.step == BootStep::SizeMldsaPartition(
                    value,
                )
                &&& !(boot.step is ReadEcc || boot.step is ReadMldsaHeader || boot.step
                    is SizeMldsaPartition || boot.step is ReadMldsa) ==> read == boot
            }),
        Boot::fresh(boot.plan).step is ReserveScratch,
        Boot::fresh(boot.plan).plan == boot.plan,
{
}

/// How boot goes on where a step fails. Short memory, and an ECC-384 certificate
/// or an endorsement that fails, end it; the ML-DSA-87 certificate is only
/// warned of. A read that fails counts as an internal bug, and else the error is
/// that of the service.
pub proof fn law_boot_failures(boot: Boot, e: McuError)
    ensures
        ({
            let failed = boot.after(BootEvent::Failed(e));
            &&& failed.plan == boot.plan && failed.cert == boot.cert
            &&& failed.step == match boot.step {
                BootStep::ReserveScratch => BootStep::Failed(McuError::OutOfMemory),
                BootStep::ReadEcc => BootStep::Failed(McuError::InternalBug),
                BootStep::InstallEcc => BootStep::Failed(e),
                BootStep::ReadMldsaHeader => BootStep::WarnMldsa(McuError::InternalBug),
                BootStep::SizeMldsaPartition(_) => BootStep::WarnMldsa(McuError::InternalBug),
                BootStep::AllocMldsa(_) => BootStep::WarnMldsa(e),
                BootStep::ReadMldsa => BootStep::WarnMldsa(McuError::InternalBug),
                BootStep::InstallMldsa => BootStep::WarnMldsa(e),
                BootStep::EndorseVendor => BootStep::Failed(e),
                BootStep::ManageOwner(_) => BootStep::Failed(e),
                BootStep::ManageTenant(_) => BootStep::Failed(e),
                other => other,
            }
        }),
{
}

/// Boot after further `events`.
pub open spec fn boot_then(boot: Boot, events: Seq<BootEvent>) -> Boot
    decreases events.len(),
{
    if events.len() == 0 {
        boot
    } else {
        boot_then(boot, events.drop_last()).after(events.last())
    }
}

/// A certificate that is read word by word comes to be installed, complete and
/// as the partition holds it, once as many words are there as it takes, and not
/// before.
pub proof fn law_certificate_comes_to_be_installed(
    boot: Boot,
    content: Seq<u8>,
    words: Seq<BootEvent>,
)
    requires
        boot.step is ReadEcc || boot.step is ReadMldsa,
        boot.cert.len() == 0,
        boot.goal > 0,
        words.len() <= (boot.goal + 3) / 4,
        forall|k: int|
            0 <= k < words.len() ==> #[trigger] words[k] == BootEvent::Value(
                otp_word(content, 4 * k),
            ),
    ensures
        ({
            let after = boot_then(boot, words);
            &&& after.plan == boot.plan && after.goal == boot.goal
            &&& if words.len() == (boot.goal + 3) / 4 {
                &&& after.cert == otp_bytes(content, boot.goal)
                &&& boot.step is ReadEcc ==> after.step is InstallEcc
                &&& boot.step is ReadMldsa ==> after.step is InstallMldsa
            } else {
                &&& after.cert == otp_bytes(content, 4 * words.len())
                &&& after.step == boot.step
            }
        }),
    decreases words.len(),
{
    if words.len() == 0 {
        assert(boot.cert =~= otp_bytes(content, 0));
    } else {
        let front = words.drop_last();
        law_certificate_comes_to_be_installed(boot, content, front);
        let before = boot_then(boot, front);
        assert(before.cert.len() == 4 * front.len());
        assert(words.last() == BootEvent::Value(otp_word(content, 4 * front.len() as int)));
        law_certificate_is_the_partitions(before, content);
    }
}

/// The managed slots: store slots 1 and 2 are SPDM slots 2 and 3, and each has
/// one half of the partition, rounded down, the owner the first.
pub proof fn law_managed_slots(partition: FlashPartition)
    ensures
        partition.owner().store_slot == 1 && partition.owner().spdm_slot == 2,
        partition.tenant().store_slot == 2 && partition.tenant().spdm_slot == 3,
        partition.owner().driver_num == partition.driver_num,
        partition.tenant().driver_num == partition.driver_num,
        partition.owner().offset == 0,
        partition.tenant().offset == partition.owner().len,
        2 * partition.owner().len <= partition.size <= 2 * partition.owner().len + 1,
{
}

} // verus!
