//! The operations offered across the boundary.
//!
//! Each is one call with no state behind it. The two that return text hand
//! out an [`OwnedString`]; the caller owns it from then on and gives it back
//! through [`free_string`].

use crate::c_text::{
    borrowed_text, borrowed_text_can_cross, can_cross, can_cross_concat, first_nul_at, nul_free,
    nul_position_is_first_nul, read_borrowed, OwnedString,
};
use crate::error::BoundaryError;
use vstd::prelude::*;
use vstd::string::StringExecFns;
use vstd::utf8::valid_utf8;

verus! {

/// The name and version that [`version`] reports.
pub const VERSION: &'static str = "CompanionAdventures 1.0.0";

/// The greeting for `name`.
pub open spec fn greeting(name: Seq<char>) -> Seq<char> {
    "Hello "@ + name + "!"@
}

/// The bytes behind a borrowed string; the null pointer has none.
pub open spec fn bytes_behind(name: Option<&[u8]>) -> Option<Seq<u8>> {
    match name {
        Some(buffer) => Some(buffer@),
        None => None,
    }
}

/// What [`say_hello`] answers to a borrowed string, `None` standing for the
/// null pointer: the greeting for the text that the buffer holds, or a
/// refusal where there is no buffer or it holds no text.
pub open spec fn say_hello_answer(name: Option<Seq<u8>>) -> Result<Seq<char>, BoundaryError> {
    match name {
        Some(buffer) => match borrowed_text(buffer) {
            Some(text) => Ok(greeting(text)),
            None => Err(BoundaryError::InvalidInput),
        },
        None => Err(BoundaryError::InvalidInput),
    }
}

/// The version text is not empty and can cross.
pub proof fn version_can_cross()
    ensures
        VERSION@.len() > 0,
        can_cross(VERSION@),
{
    reveal_strlit("CompanionAdventures 1.0.0");
}

/// The greeting for a name can cross exactly when the name can.
pub proof fn greeting_can_cross(name: Seq<char>)
    ensures
        can_cross(greeting(name)) <==> can_cross(name),
{
    reveal_strlit("Hello ");
    reveal_strlit("!");
    can_cross_concat("Hello "@, name);
    can_cross_concat("Hello "@ + name, "!"@);
}

/// Every greeting that [`say_hello`] answers with can cross, so every string
/// handed out can be written for the caller and taken back.
pub proof fn answers_can_cross(name: Option<Seq<u8>>)
    ensures
        say_hello_answer(name) matches Ok(text) ==> can_cross(text),
{
    if say_hello_answer(name) is Ok {
        borrowed_text_can_cross(name->0);
        greeting_can_cross(borrowed_text(name->0)->0);
    }
}

/// [`say_hello`] refuses the null pointer, a buffer without NUL and a name
/// that is not UTF-8, each with `InvalidInput`, and refuses nothing else.
pub proof fn refusals_are_invalid_input(name: Option<Seq<u8>>)
    ensures
        say_hello_answer(name) is Err ==> say_hello_answer(name) == Err::<
            Seq<char>,
            BoundaryError,
        >(BoundaryError::InvalidInput),
        name is None ==> say_hello_answer(name) is Err,
        name matches Some(buffer) ==> (nul_free(buffer) ==> say_hello_answer(name) is Err),
        name matches Some(buffer) ==> forall|k: int|
            first_nul_at(buffer, k) ==> (say_hello_answer(name) is Err <==> !valid_utf8(
                buffer.take(k),
            )),
{
    if name is Some {
        nul_position_is_first_nul(name->0);
    }
}

/// The name and version of this library, as a string of the caller's own.
pub fn version() -> (owned: OwnedString)
    ensures
        owned@ == VERSION@,
        owned@.len() > 0,
        can_cross(owned@),
{
    proof {
        version_can_cross();
    }
    OwnedString::seal(String::from_str(VERSION))
}

/// Greets the name held in a borrowed NUL-terminated buffer.
///
/// The name is what stands before the first NUL of the buffer. A null
/// pointer (`None`), a buffer without NUL and a name that is not UTF-8 are
/// all refused with [`BoundaryError::InvalidInput`]; nothing else is.
pub fn say_hello(name: Option<&[u8]>) -> (r: Result<OwnedString, BoundaryError>)
    ensures
        match say_hello_answer(bytes_behind(name)) {
            Ok(text) => r matches Ok(owned) && owned@ == text && can_cross(text),
            Err(error) => r matches Err(e) && e == error,
        },
{
    let buffer = match name {
        Some(buffer) => buffer,
        None => return Err(BoundaryError::InvalidInput),
    };
    let text = match read_borrowed(buffer) {
        Ok(text) => text,
        Err(e) => return Err(e),
    };
    let mut message = String::from_str("Hello ");
    message.append(text);
    message.append("!");
    proof {
        greeting_can_cross(text@);
    }
    Ok(OwnedString::seal(message))
}

/// Takes a string back from the caller and releases it; `None`, the null
/// handle, is accepted and nothing happens.
///
/// The string is moved in, so the caller cannot release it a second time.
pub fn free_string(handle: Option<OwnedString>) {
    let _released = handle;
}

} // verus!
