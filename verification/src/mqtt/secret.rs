//! The credential buffer.

use vstd::prelude::*;
use wispmq_protocol::secret::SecretBytes as ZeroingBuffer;

verus! {

/// `wispmq_protocol::secret::SecretBytes`: an owned byte buffer that overwrites itself with zeros
/// when it is dropped.
#[verifier::external_type_specification]
#[verifier::external_body]
pub struct ExZeroingBuffer(ZeroingBuffer);

/// The bytes a buffer holds.
pub uninterp spec fn secret_contents(buffer: ZeroingBuffer) -> Seq<u8>;

/// Take ownership of bytes.
///
/// Trusted: `wispmq_protocol::secret::SecretBytes::new`, which moves the bytes into the buffer.
#[verifier::external_body]
fn wrap(bytes: Vec<u8>) -> (buffer: ZeroingBuffer)
    ensures
        secret_contents(buffer) == bytes@,
{
    ZeroingBuffer::new(bytes)
}

/// Look at the bytes.
///
/// Trusted: `wispmq_protocol::secret::SecretBytes::as_slice`, which borrows all of them.
#[verifier::external_body]
fn contents(buffer: &ZeroingBuffer) -> (bytes: &[u8])
    ensures
        bytes@ == secret_contents(*buffer),
{
    buffer.as_slice()
}

/// An owned byte buffer for a password, zeroed on drop. It has no `Debug`, so that no dump of what
/// holds it can show the bytes; `redacted` is what may be shown.
pub struct SecretBytes {
    buffer: ZeroingBuffer,
}

impl View for SecretBytes {
    type V = Seq<u8>;

    closed spec fn view(&self) -> Seq<u8> {
        secret_contents(self.buffer)
    }
}

/// Whether two byte sequences are the same.
fn same_bytes(a: &[u8], b: &[u8]) -> (res: bool)
    ensures
        res == (a@ == b@),
{
    if a.len() != b.len() {
        return false;
    }
    let mut i: usize = 0;
    while i < a.len()
        invariant
            a@.len() == b@.len(),
            i <= a@.len(),
            forall|j: int| 0 <= j < i ==> a@[j] == b@[j],
        decreases a@.len() - i,
    {
        if a[i] != b[i] {
            return false;
        }
        i += 1;
    }
    assert(a@ =~= b@);
    true
}

impl SecretBytes {
    /// Take ownership of bytes.
    pub fn new(bytes: Vec<u8>) -> (secret: SecretBytes)
        ensures
            secret@ == bytes@,
    {
        SecretBytes { buffer: wrap(bytes) }
    }

    /// The bytes.
    pub fn as_slice(&self) -> (bytes: &[u8])
        ensures
            bytes@ == self@,
    {
        contents(&self.buffer)
    }

    /// What a log may show of a buffer of this many bytes.
    pub open spec fn redacted_text(len: nat) -> Seq<char> {
        "SecretBytes(<redacted, "@ + crate::text::decimal_text(len) + " bytes>)"@
    }

    /// What a log may show of the buffer: its length, never its bytes.
    pub fn redacted(&self) -> (text: String)
        ensures
            text@ == Self::redacted_text(self@.len()),
    {
        let mut text = String::from_str("SecretBytes(<redacted, ");
        text.append(crate::text::decimal(self.as_slice().len() as u64).as_str());
        text.append(" bytes>)");
        text
    }
}

impl From<Vec<u8>> for SecretBytes {
    fn from(bytes: Vec<u8>) -> (secret: SecretBytes)
        ensures
            secret@ == bytes@,
    {
        SecretBytes::new(bytes)
    }
}

impl vstd::std_specs::convert::FromSpecImpl<Vec<u8>> for SecretBytes {
    /// Two buffers of the same bytes need not be the same buffer: what `from` gives is said by its
    /// own contract.
    open spec fn obeys_from_spec() -> bool {
        false
    }

    open spec fn from_spec(bytes: Vec<u8>) -> SecretBytes {
        choose|secret: SecretBytes| secret@ == bytes@
    }
}

impl Clone for SecretBytes {
    fn clone(&self) -> (res: SecretBytes)
        ensures
            res@ == self@,
    {
        SecretBytes::new(vstd::slice::slice_to_vec(self.as_slice()))
    }
}

impl core::ops::Deref for SecretBytes {
    type Target = [u8];

    fn deref(&self) -> (bytes: &[u8])
        ensures
            bytes@ == self@,
    {
        self.as_slice()
    }
}

impl PartialEq for SecretBytes {
    fn eq(&self, other: &SecretBytes) -> (res: bool) {
        same_bytes(self.as_slice(), other.as_slice())
    }
}

impl vstd::std_specs::cmp::PartialEqSpecImpl for SecretBytes {
    open spec fn obeys_eq_spec() -> bool {
        true
    }

    open spec fn eq_spec(&self, other: &SecretBytes) -> bool {
        self@ == other@
    }
}

/// Two buffers are equal exactly when they hold the same bytes, one by one.
pub proof fn buffers_are_equal_by_their_bytes(a: SecretBytes, b: SecretBytes)
    ensures
        vstd::std_specs::cmp::PartialEqSpec::eq_spec(&a, &b) <==> {
            &&& a@.len() == b@.len()
            &&& forall|i: int| 0 <= i < a@.len() ==> #[trigger] a@[i] == b@[i]
        },
{
    if a@.len() == b@.len() && (forall|i: int| 0 <= i < a@.len() ==> #[trigger] a@[i] == b@[i]) {
        assert(a@ =~= b@);
    }
}

/// What may be shown of a buffer gives its length.
pub proof fn a_redacted_buffer_gives_its_length(len: nat)
    ensures
        crate::text::holds(SecretBytes::redacted_text(len), crate::text::decimal_text(len)),
{
    let head = "SecretBytes(<redacted, "@;
    let number = crate::text::decimal_text(len);
    crate::text::lemma_holds_appended(head, number, number);
    crate::text::lemma_holds_appended(head + number, number, " bytes>)"@);
}

} // verus!
