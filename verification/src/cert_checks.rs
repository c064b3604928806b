//! Judging what Caliptra's certificate services return.
//!
//! Each check takes what a service returned and gives the lines to print; it
//! gives `None` where the check fails.

use crate::bytes::{cut_to_u32, le32_bytes, low32};
use crate::cert_store::McuError;
use crate::otp::{cert_der_len, mldsa_cert_der_len, OtpReader};
use crate::text::{decimal, push_decimal, string_texts};
use vstd::prelude::*;
use vstd::slice::slice_subrange;

verus! {

/// Bytes per line of a dump.
pub const DUMP_LINE_BYTES: usize = 32;

/// Size of an ECDSA P-384 signature: two numbers of 48 bytes.
pub const P384_SIGNATURE_SIZE: usize = 96;

/// Keys whose attested CSRs are fetched.
pub const ATTESTED_KEY_IDS: [u32; 3] = [0x0001, 0x0002, 0x0003];

/// The lower-case hexadecimal digit for `d`.
pub open spec fn hex_digit(d: int) -> char {
    if d < 10 {
        ('0' as int + d) as char
    } else {
        ('a' as int + (d - 10)) as char
    }
}

/// What a lower-case hexadecimal digit stands for.
pub open spec fn hex_value(c: char) -> int {
    if c <= '9' {
        c as int - '0' as int
    } else {
        c as int - 'a' as int + 10
    }
}

/// Two hexadecimal digits for each byte, the high one first.
pub open spec fn hex_of(bytes: Seq<u8>) -> Seq<char> {
    Seq::new(
        2 * bytes.len(),
        |i: int|
            if i % 2 == 0 {
                hex_digit(bytes[i / 2] as int / 16)
            } else {
                hex_digit(bytes[i / 2] as int % 16)
            },
    )
}

/// The end of line `k` in `n` bytes.
pub open spec fn line_end(n: int, k: int) -> int {
    if 32 * k + 32 <= n {
        32 * k + 32
    } else {
        n
    }
}

/// The hexadecimal lines of `der`: 32 bytes in each but the last.
pub open spec fn hex_lines(der: Seq<u8>) -> Seq<Seq<char>> {
    Seq::new(
        ((der.len() + 31) / 32) as nat,
        |k: int| hex_of(der.subrange(32 * k, line_end(der.len() as int, k))),
    )
}

/// A dump of `der`: its hexadecimal lines between a line that names it and
/// gives its size, and one that ends it.
pub open spec fn dump(label: Seq<char>, der: Seq<u8>) -> Seq<Seq<char>> {
    seq!["---BEGIN "@ + label + " ("@ + decimal(der.len()) + " bytes)---"@] + hex_lines(der)
        + seq!["---END "@ + label + "---"@]
}

/// Appends the digit for `d` to `out`.
fn push_hex_digit(out: &mut String, d: u8)
    requires
        d < 16,
    ensures
        final(out)@ == old(out)@.push(hex_digit(d as int)),
{
    if d < 10 {
        out.push((0x30 + d) as char);
    } else {
        out.push((0x61 + (d - 10)) as char);
    }
}

/// Two hexadecimal digits for each byte.
fn hex_line(bytes: &[u8]) -> (r: String)
    ensures
        r@ == hex_of(bytes@),
{
    let mut out = String::new();
    let mut i: usize = 0;
    while i < bytes.len()
        invariant
            i <= bytes@.len(),
            out@ == hex_of(bytes@.take(i as int)),
        decreases bytes.len() - i,
    {
        let byte: u8 = bytes[i];
        push_hex_digit(&mut out, byte / 16);
        push_hex_digit(&mut out, byte % 16);
        i += 1;
    }
    out
}

/// Dumps `der` as hexadecimal lines, for processing elsewhere.
pub fn dump_der_hex(label: &str, der: &[u8]) -> (r: Vec<String>)
    ensures
        string_texts(r@) == dump(label@, der@),
{
    let n: usize = der.len();
    let mut first = "---BEGIN ".to_owned();
    first.append(label);
    first.append(" (");
    push_decimal(&mut first, n as u64);
    first.append(" bytes)---");
    let ghost begin = seq![first@];
    let mut out: Vec<String> = Vec::new();
    out.push(first);
    let mut start: usize = 0;
    let ghost mut k: int = 0;
    while start < n
        invariant
            n == der@.len(),
            k >= 0,
            start == line_end(n as int, k - 1) || (k == 0 && start == 0),
            start < n ==> start == 32 * k,
            k <= hex_lines(der@).len(),
            start >= n ==> k == hex_lines(der@).len(),
            string_texts(out@) == begin + hex_lines(der@).take(k),
        decreases n - start,
    {
        let end: usize = if n - start > DUMP_LINE_BYTES {
            start + DUMP_LINE_BYTES
        } else {
            n
        };
        let ghost before = string_texts(out@);
        let line = hex_line(slice_subrange(der, start, end));
        out.push(line);
        assert(string_texts(out@) =~= before.push(line@));
        start = end;
        proof {
            k = k + 1;
        }
    }
    let mut last = "---END ".to_owned();
    last.append(label);
    last.append("---");
    let ghost before = string_texts(out@);
    out.push(last);
    assert(string_texts(out@) =~= before.push(last@));
    out
}

/// The bytes can be had back from a dump: byte `i` stands in line `i / 32`, as
/// two digits.
pub proof fn law_dump_reads_back(label: Seq<char>, der: Seq<u8>, i: int)
    requires
        0 <= i < der.len(),
    ensures
        ({
            let lines = dump(label, der);
            let line = lines[1 + i / 32];
            let at = 2 * (i % 32);
            &&& 1 + i / 32 < lines.len() - 1
            &&& at + 1 < line.len()
            &&& der[i] == 16 * hex_value(line[at]) + hex_value(line[at + 1])
        }),
{
    let k = i / 32;
    assert(dump(label, der)[1 + k] == hex_lines(der)[k]);
    assert(der.subrange(32 * k, line_end(der.len() as int, k))[i % 32] == der[i]);
}

/// A dump has one line for each 32 bytes or part of them, besides the first and
/// the last line; each holds two digits per byte.
pub proof fn law_dump_shape(label: Seq<char>, der: Seq<u8>, k: int)
    requires
        0 <= k < (der.len() + 31) / 32,
    ensures
        dump(label, der).len() == (der.len() + 31) / 32 + 2,
        dump(label, der)[1 + k].len() == 2 * (line_end(der.len() as int, k) - 32 * k),
        dump(label, der)[1 + k].len() <= 64,
        32 * k + 32 <= der.len() ==> dump(label, der)[1 + k].len() == 64,
{
}

/// The lines that are printed, or `None`.
pub open spec fn printed(lines: Option<Vec<String>>) -> Option<Seq<Seq<char>>> {
    match lines {
        Some(lines) => Some(string_texts(lines@)),
        None => None,
    }
}

/// The line that is printed, or `None`.
pub open spec fn printed_line(line: Option<String>) -> Option<Seq<char>> {
    match line {
        Some(line) => Some(line@),
        None => None,
    }
}

/// `text` followed by the digits of `n`.
fn with_number(text: &str, n: usize) -> (r: String)
    ensures
        r@ == text@ + decimal(n as nat),
{
    let mut line = text.to_owned();
    push_decimal(&mut line, n as u64);
    line
}

/// A line followed by the dump of the first `size` bytes of `buf`.
fn with_dump(line: String, label: &str, buf: &[u8], size: usize) -> (r: Vec<String>)
    requires
        size <= buf@.len(),
    ensures
        string_texts(r@) == seq![line@] + dump(label@, buf@.take(size as int)),
{
    let mut lines = dump_der_hex(label, slice_subrange(buf, 0, size));
    lines.insert(0, line);
    lines
}

/// Judges the ECC-384 IDevID CSR: a CSR must have come, and it is dumped.
pub fn test_get_idev_csr_ecc384(reply: Result<Option<usize>, McuError>, buf: &[u8]) -> (r: Option<
    Vec<String>,
>)
    requires
        reply matches Ok(Some(size)) ==> size <= buf@.len(),
    ensures
        printed(r) == match reply {
            Ok(Some(size)) if size != 0 => Some(
                seq!["IDevID CSR size: "@ + decimal(size as nat)] + dump(
                    "ECC384 IDEVID CSR"@,
                    buf@.take(size as int),
                ),
            ),
            _ => None,
        },
{
    match reply {
        Ok(Some(size)) => {
            if size == 0 {
                return None;
            }
            Some(with_dump(with_number("IDevID CSR size: ", size), "ECC384 IDEVID CSR", buf, size))
        },
        _ => None,
    }
}

/// Sizes of the ML-DSA-87 IDevID CSR.
#[derive(Clone, Copy, Debug, PartialEq, Eq, Structural)]
pub struct MldsaCsrLimits {
    /// What a buffer needs for the response around the largest CSR.
    pub response_buffer_size: usize,
    /// Size of the largest CSR.
    pub max_size: usize,
}

impl MldsaCsrLimits {
    /// Whether a buffer of `len` bytes is large enough to ask for the CSR.
    pub fn admits_buffer(&self, len: usize) -> (r: bool)
        ensures
            r == (len >= self.response_buffer_size),
    {
        len >= self.response_buffer_size
    }
}

/// Judges the ML-DSA-87 IDevID CSR: a CSR of an allowed size must have come, and
/// it is dumped.
pub fn test_get_idev_csr_mldsa87(
    limits: MldsaCsrLimits,
    reply: Result<Option<usize>, McuError>,
    buf: &[u8],
) -> (r: Option<Vec<String>>)
    requires
        reply matches Ok(Some(size)) ==> size <= limits.max_size ==> size <= buf@.len(),
    ensures
        printed(r) == match reply {
            Ok(Some(size)) if buf@.len() >= limits.response_buffer_size && 0 < size
                <= limits.max_size => Some(
                seq!["IDevID ML-DSA-87 CSR size: "@ + decimal(size as nat)] + dump(
                    "MLDSA87 IDEVID CSR"@,
                    buf@.take(size as int),
                ),
            ),
            _ => None,
        },
{
    if !limits.admits_buffer(buf.len()) {
        return None;
    }
    match reply {
        Ok(Some(size)) => {
            if size == 0 || size > limits.max_size {
                return None;
            }
            Some(
                with_dump(
                    with_number("IDevID ML-DSA-87 CSR size: ", size),
                    "MLDSA87 IDEVID CSR",
                    buf,
                    size,
                ),
            )
        },
        _ => None,
    }
}

/// Layout of a response that carries an LDevID certificate.
#[derive(Clone, Copy, Debug, PartialEq, Eq, Structural)]
pub struct LdevCertLayout {
    /// Size of the whole response.
    pub response_len: usize,
    /// Where the certificate begins.
    pub prefix_len: usize,
    /// The most that a certificate can take.
    pub data_capacity: usize,
}

impl LdevCertLayout {
    /// Whether a buffer of `len` bytes is large enough to ask for the
    /// certificate.
    pub fn admits_buffer(&self, len: usize) -> (r: bool)
        ensures
            r == (len >= self.response_len),
    {
        len >= self.response_len
    }
}

/// Judges the ML-DSA-87 LDevID certificate: `data_size` bytes of it must have
/// come, within what it can take and within the `actual` response.
pub fn test_get_ldev_cert_mldsa87(
    layout: LdevCertLayout,
    buffer_len: usize,
    actual: Result<usize, McuError>,
    data_size: u32,
) -> (r: Option<String>)
    ensures
        printed_line(r) == match actual {
            Ok(actual) if buffer_len >= layout.response_len && 0 < data_size
                <= layout.data_capacity && layout.prefix_len + data_size <= actual => Some(
                "LDevID ML-DSA-87 certificate size: "@ + decimal(data_size as nat),
            ),
            _ => None,
        },
{
    if !layout.admits_buffer(buffer_len) {
        return None;
    }
    match actual {
        Ok(actual) => {
            let size: usize = data_size as usize;
            if size == 0 || size > layout.data_capacity || size > actual || layout.prefix_len
                > actual - size {
                return None;
            }
            Some(with_number("LDevID ML-DSA-87 certificate size: ", size))
        },
        Err(_) => None,
    }
}

/// Begins to read the ML-DSA-87 IDevID certificate from OTP, if there is one
/// that fits a buffer of `buffer_len` bytes.
pub fn populate_idevid_cert_mldsa87_from_otp(
    partition_size: Result<u32, McuError>,
    first_word: Result<u32, McuError>,
    buffer_len: usize,
) -> (r: Option<OtpReader>)
    ensures
        match (partition_size, first_word) {
            (Ok(partition_size), Ok(word)) => match cert_der_len(
                le32_bytes(word),
                partition_size as nat,
            ) {
                Some(size) if size <= buffer_len => {
                    &&& r matches Some(reader)
                    &&& reader.goal() == size
                    &&& reader@ == Seq::<u8>::empty()
                },
                _ => r is None,
            },
            _ => r is None,
        },
{
    match (partition_size, first_word) {
        (Ok(partition_size), Ok(word)) => match mldsa_cert_der_len(word, partition_size as usize) {
            Some(size) => if size <= buffer_len {
                Some(OtpReader::new(size))
            } else {
                None
            },
            None => None,
        },
        _ => None,
    }
}

/// Reads a certificate chain chunk by chunk until a chunk comes short.
pub struct CertChainWalk {
    offset: u32,
}

impl View for CertChainWalk {
    type V = nat;

    closed spec fn view(&self) -> nat {
        self.offset as nat
    }
}

/// Begins to read the certificate chain.
pub fn test_get_cert_chain() -> (r: CertChainWalk)
    ensures
        r@ == 0,
{
    CertChainWalk { offset: 0 }
}

impl CertChainWalk {
    /// Where the next chunk begins.
    pub fn offset(&self) -> (r: u32)
        ensures
            r == self@,
    {
        self.offset
    }

    /// Takes note of a chunk of `size` bytes where `chunk_len` were asked for,
    /// and tells whether there is more.
    pub fn chunk_read(&mut self, size: usize, chunk_len: usize) -> (r: bool)
        requires
            old(self)@ + size <= u32::MAX,
        ensures
            final(self)@ == old(self)@ + size,
            r == (size >= chunk_len),
    {
        self.offset = self.offset + size as u32;
        size >= chunk_len
    }

    /// The verdict on a chain that was read: it must not be empty.
    pub fn finish(&self) -> (r: Option<String>)
        ensures
            printed_line(r) == if self@ == 0 {
                None
            } else {
                Some("Certificate chain size: "@ + decimal(self@))
            },
    {
        if self.offset == 0 {
            return None;
        }
        Some(with_number("Certificate chain size: ", self.offset as usize))
    }
}

/// Reads the certificate of an attestation key slice by slice.
pub struct KeyCertWalk {
    size: usize,
    chunk_len: usize,
    offset: usize,
}

/// How far the certificate has been read.
pub struct KeyCert {
    pub size: nat,
    pub chunk_len: nat,
    pub offset: nat,
}

impl KeyCert {
    /// How many bytes are asked for next.
    pub open spec fn requested(self) -> nat {
        if self.size >= self.offset + self.chunk_len {
            self.chunk_len
        } else if self.size >= self.offset {
            (self.size - self.offset) as nat
        } else {
            0
        }
    }

    /// Whether a slice of `copied` bytes is acceptable.
    pub open spec fn accepts(self, copied: nat) -> bool {
        0 < copied <= self.requested()
    }

    /// The state after such a slice.
    pub open spec fn after(self, copied: nat) -> KeyCert {
        KeyCert {
            offset: if self.accepts(copied) {
                self.offset + copied
            } else {
                self.offset
            },
            ..self
        }
    }
}

impl View for KeyCertWalk {
    type V = KeyCert;

    closed spec fn view(&self) -> KeyCert {
        KeyCert {
            size: self.size as nat,
            chunk_len: self.chunk_len as nat,
            offset: self.offset as nat,
        }
    }
}

/// Begins to read the certificate of the attestation key, in slices of
/// `chunk_len` bytes. It must not be empty.
pub fn test_certify_key(size: Result<usize, McuError>, chunk_len: usize) -> (r: Option<KeyCertWalk>)
    ensures
        match size {
            Ok(size) if size != 0 => {
                &&& r matches Some(walk)
                &&& walk@ == (KeyCert { size: size as nat, chunk_len: chunk_len as nat, offset: 0 })
            },
            _ => r is None,
        },
{
    match size {
        Ok(size) => if size == 0 {
            None
        } else {
            Some(KeyCertWalk { size, chunk_len, offset: 0 })
        },
        Err(_) => None,
    }
}

impl KeyCertWalk {
    /// No more is read than there is.
    #[verifier::type_invariant]
    closed spec fn within_size(self) -> bool {
        self.offset <= self.size
    }

    /// How many bytes are asked for next.
    fn next_len(&self) -> (r: usize)
        ensures
            r == self@.requested(),
            self@.offset <= self@.size,
    {
        proof {
            use_type_invariant(self);
        }
        let left: usize = self.size - self.offset;
        if left < self.chunk_len {
            left
        } else {
            self.chunk_len
        }
    }

    /// Offset and length of the slice to ask for next; `None` once all is read.
    pub fn next_request(&self) -> (r: Option<(u32, usize)>)
        ensures
            self@.offset <= self@.size,
            match r {
                Some((offset, len)) => {
                    &&& self@.offset < self@.size
                    &&& offset == low32(self@.offset as int)
                    &&& len == self@.requested()
                },
                None => self@.offset == self@.size,
            },
    {
        let len: usize = self.next_len();
        if self.offset < self.size {
            Some((cut_to_u32(self.offset), len))
        } else {
            None
        }
    }

    /// Takes note of a slice of `copied` bytes, and tells whether that is
    /// acceptable: something, and no more than was asked for.
    pub fn slice_read(&mut self, copied: usize) -> (r: bool)
        ensures
            r == old(self)@.accepts(copied as nat),
            final(self)@ == old(self)@.after(copied as nat),
    {
        let requested: usize = self.next_len();
        proof {
            use_type_invariant(&*self);
        }
        if copied == 0 || copied > requested {
            return false;
        }
        self.offset = self.offset + copied;
        true
    }

    /// The verdict on a certificate: it must have been read to its end.
    pub fn finish(&self) -> (r: Option<String>)
        ensures
            printed_line(r) == if self@.offset == self@.size {
                Some("Attestation key certificate size: "@ + decimal(self@.size))
            } else {
                None
            },
    {
        if self.offset != self.size {
            return None;
        }
        Some(with_number("Attestation key certificate size: ", self.size))
    }
}

/// Each acceptable slice brings the end of the certificate nearer and none goes
/// past it.
pub proof fn law_key_cert_progress(cert: KeyCert, copied: nat)
    requires
        cert.offset <= cert.size,
        cert.accepts(copied),
    ensures
        cert.offset < cert.after(copied).offset <= cert.size,
        cert.after(copied).size == cert.size,
{
}

/// Judges a signature by the attestation key: it must have the size of a P-384
/// signature.
pub fn test_sign_with_test_key(size: Result<usize, McuError>) -> (r: Option<String>)
    ensures
        printed_line(r) == match size {
            Ok(size) if size == P384_SIGNATURE_SIZE => Some(
                "Attestation key signing test completed successfully"@,
            ),
            _ => None,
        },
{
    match size {
        Ok(size) => if size == P384_SIGNATURE_SIZE {
            Some("Attestation key signing test completed successfully".to_owned())
        } else {
            None
        },
        Err(_) => None,
    }
}

/// The size of an attested CSR that came; it must not be empty.
pub fn attested_csr_size(reply: Result<usize, McuError>) -> (r: Option<usize>)
    ensures
        r == match reply {
            Ok(size) if size != 0 => Some(size),
            _ => None,
        },
{
    match reply {
        Ok(size) => if size == 0 {
            None
        } else {
            Some(size)
        },
        Err(_) => None,
    }
}

/// Judges the attested CSRs of a key: both must have come.
pub fn test_get_attested_csr(
    key_id: u32,
    ecc: Result<usize, McuError>,
    mldsa: Result<usize, McuError>,
) -> (r: Option<String>)
    ensures
        printed_line(r) == match (ecc, mldsa) {
            (Ok(ecc_size), Ok(mldsa_size)) if ecc_size != 0 && mldsa_size != 0 => Some(
                "Attested CSR sizes for key "@ + decimal(key_id as nat) + ": "@ + decimal(
                    ecc_size as nat,
                ) + ", "@ + decimal(mldsa_size as nat),
            ),
            _ => None,
        },
{
    match (attested_csr_size(ecc), attested_csr_size(mldsa)) {
        (Some(ecc_size), Some(mldsa_size)) => {
            let mut line = "Attested CSR sizes for key ".to_owned();
            push_decimal(&mut line, key_id as u64);
            line.append(": ");
            push_decimal(&mut line, ecc_size as u64);
            line.append(", ");
            push_decimal(&mut line, mldsa_size as u64);
            Some(line)
        },
        _ => None,
    }
}

/// Digits are lower-case hexadecimal, and each stands for its number.
pub proof fn law_hex_digits(d: int)
    requires
        0 <= d < 16,
    ensures
        d < 10 ==> hex_digit(d) as int == 0x30 + d,
        d >= 10 ==> hex_digit(d) as int == 0x61 + (d - 10),
        hex_value(hex_digit(d)) == d,
{
}

/// The lines of a dump: a first and a last line with the label, the first with
/// the size, and between them, for each byte, the digits of its high and of its
/// low half, 32 bytes a line.
pub proof fn law_dump_lines(label: Seq<char>, der: Seq<u8>, i: int)
    requires
        0 <= i < der.len(),
    ensures
        ({
            let lines = dump(label, der);
            &&& lines.len() == (der.len() + 31) / 32 + 2
            &&& lines[0] == "---BEGIN "@ + label + " ("@ + decimal(der.len()) + " bytes)---"@
            &&& lines.last() == "---END "@ + label + "---"@
            &&& lines[1 + i / 32][2 * (i % 32)] as int == (if der[i] < 160 {
                0x30 + der[i] as int / 16
            } else {
                0x61 + der[i] as int / 16 - 10
            })
            &&& lines[1 + i / 32][2 * (i % 32) + 1] as int == (if der[i] as int % 16 < 10 {
                0x30 + der[i] as int % 16
            } else {
                0x61 + der[i] as int % 16 - 10
            })
            &&& lines[1 + i / 32].len() == 2 * if der.len() - 32 * (i / 32) < 32 {
                der.len() - 32 * (i / 32)
            } else {
                32
            }
        }),
{
    let k = i / 32;
    assert(dump(label, der)[1 + k] == hex_lines(der)[k]);
    assert(der.subrange(32 * k, line_end(der.len() as int, k))[i % 32] == der[i]);
    law_hex_digits(der[i] as int / 16);
    law_hex_digits(der[i] as int % 16);
}

/// A dump of nothing has its first and last line only.
pub proof fn law_empty_dump(label: Seq<char>)
    ensures
        dump(label, Seq::empty()) == seq![
            "---BEGIN "@ + label + " ("@ + decimal(0) + " bytes)---"@,
            "---END "@ + label + "---"@,
        ],
{
}

/// The next slice is as long as fits both the chunk and what is left, a slice is
/// acceptable if it has something and no more than that, and only an acceptable
/// one moves on, by its length.
pub proof fn law_key_cert_slices(cert: KeyCert, copied: nat)
    requires
        cert.offset <= cert.size,
    ensures
        cert.requested() <= cert.chunk_len,
        cert.offset + cert.requested() <= cert.size,
        cert.requested() == cert.chunk_len || cert.offset + cert.requested() == cert.size,
        cert.accepts(copied) <==> copied > 0 && copied <= cert.chunk_len && cert.offset + copied
            <= cert.size,
        cert.after(copied).offset == if cert.accepts(copied) {
            cert.offset + copied
        } else {
            cert.offset
        },
        cert.after(copied).chunk_len == cert.chunk_len,
{
}

/// What is printed are the lines that were given, as they are, and nothing where
/// none were.
pub proof fn law_printed_lines(lines: Vec<String>, line: String, i: int)
    ensures
        printed(None) is None,
        printed_line(None) is None,
        printed_line(Some(line)) == Some(line@),
        printed(Some(lines)) matches Some(texts) && texts.len() == lines@.len() && (0 <= i
            < texts.len() ==> texts[i] == lines@[i]@),
{
}

} // verus!
