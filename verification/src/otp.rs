//! Reading certificates out of one-time-programmable memory (OTP).
//!
//! The OTP driver returns one 32-bit little-endian word per call, from a byte
//! offset into a partition. Past the end of the partition it gives `0xFF`.

use crate::bytes::{
    cut_to_u32, law_bytes_are_digits, law_bytes_integer_round_trip, le32, le32_bytes, low32,
    push_bytes, u32_le_bytes,
};
use vstd::prelude::*;
use vstd::slice::slice_subrange;

verus! {

/// OTP partition of the ECC-384 IDevID certificate.
pub const OTP_IDEVID_ECC_PARTITION: u32 = 0x01;

/// OTP partition of the ML-DSA-87 IDevID certificate.
pub const OTP_IDEVID_MLDSA_PARTITION: u32 = 0x02;

/// Size of the ECC-384 IDevID certificate in its partition.
pub const ECC_DEVID_CERT_SIZE: usize = 547;

/// How many of the next word's bytes are wanted when `have` of `total` are
/// there: four, or fewer at the end.
pub open spec fn wanted(total: nat, have: nat) -> nat {
    if total >= have + 4 {
        4
    } else if total >= have {
        (total - have) as nat
    } else {
        0
    }
}

/// The first `total` bytes of an OTP partition, as they are read word by word.
pub struct OtpReader {
    data: Vec<u8>,
    total: usize,
}

impl View for OtpReader {
    type V = Seq<u8>;

    closed spec fn view(&self) -> Seq<u8> {
        self.data@
    }
}

impl OtpReader {
    /// How many bytes are to be read.
    pub closed spec fn goal(&self) -> nat {
        self.total as nat
    }

    /// No more is read than asked for.
    #[verifier::type_invariant]
    closed spec fn within_goal(self) -> bool {
        self.data@.len() <= self.total
    }

    /// A reader of the first `total` bytes.
    pub fn new(total: usize) -> (r: OtpReader)
        ensures
            r.goal() == total,
            r@ == Seq::<u8>::empty(),
    {
        let data: Vec<u8> = Vec::new();
        OtpReader { data, total }
    }

    /// The byte offset of the word to read next; `None` once all is read.
    pub fn next_offset(&self) -> (r: Option<u32>)
        ensures
            self@.len() <= self.goal(),
            r == (if self@.len() < self.goal() {
                Some(low32(self@.len() as int))
            } else {
                None
            }),
    {
        proof {
            use_type_invariant(self);
        }
        if self.data.len() < self.total {
            Some(self.offset())
        } else {
            None
        }
    }

    /// Takes the word at the next offset.
    pub fn take_word(&mut self, word: u32)
        ensures
            final(self).goal() == old(self).goal(),
            final(self)@ == old(self)@ + le32_bytes(word).take(
                wanted(old(self).goal(), old(self)@.len()) as int,
            ),
    {
        proof {
            use_type_invariant(&*self);
        }
        let left: usize = self.total - self.data.len();
        let n: usize = if left < 4 {
            left
        } else {
            4
        };
        let bytes = u32_le_bytes(word);
        let taken = slice_subrange(bytes.as_slice(), 0, n);
        let mut data: Vec<u8> = Vec::new();
        std::mem::swap(&mut data, &mut self.data);
        push_bytes(&mut data, taken);
        self.data = data;
    }

    /// The byte offset behind what has been read.
    pub fn offset(&self) -> (r: u32)
        ensures
            r == low32(self@.len() as int),
    {
        cut_to_u32(self.data.len())
    }

    /// What has been read.
    pub fn bytes(&self) -> (r: &[u8])
        ensures
            r@ == self@,
    {
        self.data.as_slice()
    }
}

/// Byte `i` of a partition that holds `content`, as the driver gives it.
pub open spec fn otp_byte(content: Seq<u8>, i: int) -> u8 {
    if 0 <= i < content.len() {
        content[i]
    } else {
        0xFF
    }
}

/// The first `n` bytes of such a partition.
pub open spec fn otp_bytes(content: Seq<u8>, n: nat) -> Seq<u8> {
    Seq::new(n, |i: int| otp_byte(content, i))
}

/// The word that the driver gives at `offset`.
pub open spec fn otp_word(content: Seq<u8>, offset: int) -> u32 {
    le32(
        seq![
            otp_byte(content, offset),
            otp_byte(content, offset + 1),
            otp_byte(content, offset + 2),
            otp_byte(content, offset + 3),
        ],
    ) as u32
}

/// What a reader of `total` bytes has after `words`.
pub open spec fn read_from(total: nat, words: Seq<u32>) -> Seq<u8>
    decreases words.len(),
{
    if words.len() == 0 {
        Seq::empty()
    } else {
        let before = read_from(total, words.drop_last());
        before + le32_bytes(words.last()).take(wanted(total, before.len()) as int)
    }
}

/// Reading word by word gives the bytes of the partition: the words at offsets
/// 0, 4, 8 and so on make up its first bytes, as many as are asked for.
pub proof fn law_words_make_up_the_bytes(content: Seq<u8>, total: nat, words: Seq<u32>)
    requires
        forall|k: int| 0 <= k < words.len() ==> #[trigger] words[k] == otp_word(content, 4 * k),
    ensures
        read_from(total, words) == otp_bytes(
            content,
            if total <= 4 * words.len() {
                total
            } else {
                4 * words.len()
            },
        ),
    decreases words.len(),
{
    if words.len() > 0 {
        law_words_make_up_the_bytes(content, total, words.drop_last());
        let at = 4 * (words.len() - 1);
        let digits = seq![
            otp_byte(content, at),
            otp_byte(content, at + 1),
            otp_byte(content, at + 2),
            otp_byte(content, at + 3),
        ];
        law_bytes_integer_round_trip(seq![0u8, 0u8], digits);
    }
}

/// The length of the ML-DSA-87 certificate whose first four bytes are `header`,
/// in a partition of `partition_size` bytes.
///
/// A certificate is an ASN.1 SEQUENCE: tag `0x30`, then its length in the long
/// form of two bytes, `0x82`, the only one that such a certificate can have.
/// A length that has a shorter form, or that overruns the partition, is no
/// certificate that can be installed.
pub open spec fn cert_der_len(header: Seq<u8>, partition_size: nat) -> Option<nat> {
    let body = 0x100 * header[2] + header[3];
    if header[0] == 0x30 && header[1] == 0x82 && body >= 0x80 && 4 + body <= partition_size {
        Some((4 + body) as nat)
    } else {
        None
    }
}

/// The length of the ML-DSA-87 IDevID certificate in OTP, from its first word.
pub fn mldsa_cert_der_len(word: u32, partition_size: usize) -> (r: Option<usize>)
    ensures
        match r {
            Some(n) => cert_der_len(le32_bytes(word), partition_size as nat) == Some(n as nat),
            None => cert_der_len(le32_bytes(word), partition_size as nat) is None,
        },
{
    let header = u32_le_bytes(word);
    if header[0] != 0x30 || header[1] != 0x82 {
        return None;
    }
    let body: usize = 0x100 * header[2] as usize + header[3] as usize;
    if body < 0x80 || 4 + body > partition_size {
        return None;
    }
    Some(4 + body)
}

/// Erased OTP holds no certificate, and what is taken for one lies within its
/// partition.
pub proof fn law_cert_lies_in_partition(header: Seq<u8>, partition_size: nat)
    ensures
        header == seq![0xFFu8, 0xFFu8, 0xFFu8, 0xFFu8] ==> cert_der_len(header, partition_size)
            is None,
        partition_size < 4 ==> cert_der_len(header, partition_size) is None,
        cert_der_len(header, partition_size) matches Some(n) ==> 132 <= n <= partition_size && n
            <= 65539,
{
}

/// A certificate of any installable length is recognised by its header, with
/// exactly that length: `0x30 0x82` and the number of bytes that follow, high
/// byte first, if the partition holds all of it. Nothing else is recognised.
pub proof fn law_certificate_length(word: u32, partition_size: nat, n: nat)
    ensures
        cert_der_len(le32_bytes(word), partition_size) == Some(n) <==> {
            let body = n - 4;
            &&& 128 <= body <= 65535
            &&& n <= partition_size
            &&& word == 0x30 + 0x100 * 0x82 + 0x1_0000 * (body / 0x100) + 0x100_0000 * (body
                % 0x100)
        },
{
    let b = le32_bytes(word);
    law_bytes_are_digits(0, word);
    assert(word == b[0] + 0x100 * b[1] + 0x1_0000 * b[2] + 0x100_0000 * b[3]);
    let body = n - 4;
    if 128 <= body <= 65535 && word == 0x30 + 0x100 * 0x82 + 0x1_0000 * (body / 0x100) + 0x100_0000
        * (body % 0x100) {
        assert(b[0] == 0x30 && b[1] == 0x82 && b[2] == body / 0x100 && b[3] == body % 0x100);
    }
}

/// A word gives four bytes while four or more are wanted, and as many as are
/// wanted at the end; after that it gives none.
pub proof fn law_wanted_bytes(total: nat, have: nat)
    ensures
        have + wanted(total, have) <= total || have > total,
        wanted(total, have) <= 4,
        have < total ==> wanted(total, have) > 0,
        wanted(total, have) < 4 && have <= total ==> have + wanted(total, have) == total,
        have > total ==> wanted(total, have) == 0,
{
}

} // verus!
