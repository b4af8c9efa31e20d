use vstd::prelude::*;

use crate::text::{hex_encode, lemma_hex_encode_shape, all_lower_hex, to_hex};

verus! {

#[verifier::external_type_specification]
#[verifier::external_body]
pub struct ExRandomError(getrandom::Error);

/// Calls `getrandom::fill` on the whole buffer. Claimed: the buffer keeps its
/// length (the call receives a slice), and an empty buffer succeeds without
/// asking the operating system (`fill_uninit` skips the backend when the
/// slice is empty). Which bytes come back is left unsaid: they are random.
#[verifier::external_body]
fn fill_random(buf: &mut Vec<u8>) -> (result: Result<(), getrandom::Error>)
    ensures
        final(buf)@.len() == old(buf)@.len(),
        old(buf)@.len() == 0 ==> result is Ok,
{
    getrandom::fill(buf.as_mut_slice())
}

/// Calls the `Display` impl of `getrandom::Error`. Nothing is claimed of the text.
#[verifier::external_body]
fn random_error_text(error: &getrandom::Error) -> String {
    error.to_string()
}

/// The operating system could not supply secure randomness.
#[derive(Debug)]
pub struct RandomnessError {
    /// What the operating system reported.
    pub detail: String,
}

impl RandomnessError {
    /// The message shown to the user.
    pub fn message(&self) -> (text: String)
        ensures
            text@ == "could not obtain secure randomness: "@ + self.detail@,
    {
        let mut text = "could not obtain secure randomness: ".to_owned();
        text.append(self.detail.as_str());
        text
    }
}

/// `count` fresh random bytes written as lowercase hexadecimal text. No bytes
/// asked for is no request to the operating system: the empty text.
pub fn random_hex(count: usize) -> (result: Result<String, RandomnessError>)
    ensures
        count == 0 ==> (result matches Ok(text) && text@.len() == 0),
        result matches Ok(text) ==> exists|bytes: Seq<u8>|
            bytes.len() == count && text@ == #[trigger] hex_encode(bytes),
        result matches Ok(text) ==> text@.len() == 2 * count && all_lower_hex(text@),
{
    let mut bytes: Vec<u8> = Vec::new();
    let mut i: usize = 0;
    while i < count
        invariant
            i <= count,
            bytes@.len() == i,
        decreases count - i,
    {
        bytes.push(0);
        i += 1;
    }
    match fill_random(&mut bytes) {
        Ok(()) => {
            let text = to_hex(&bytes);
            proof {
                lemma_hex_encode_shape(bytes@);
            }
            Ok(text)
        },
        Err(error) => Err(RandomnessError { detail: random_error_text(&error) }),
    }
}

} // verus!
