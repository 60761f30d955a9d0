//! The calls into `std::io` and `std::str` that the readers and writers make,
//! each with what its documentation promises.
use std::io::BufRead;
use std::io::Error;
use std::io::ErrorKind;
use std::io::IoSliceMut;
use std::io::Read;
use vstd::prelude::*;
use vstd::utf8::decode_utf8;
use vstd::utf8::valid_utf8;

verus! {

/// `std::io::Error`, carried through unopened.
#[verifier::external_type_specification]
#[verifier::external_body]
pub struct ExIoError(std::io::Error);

/// `std::io::IoSliceMut`, carried through unopened.
#[verifier::external_type_specification]
#[verifier::external_body]
pub struct ExIoSliceMut<'a>(std::io::IoSliceMut<'a>);

/// Relies on `Read::read`: an `Ok(n)` never exceeds the room it was given
/// from `start` on, and the bytes before `start` are not handed to it.
#[verifier::external_body]
pub(crate) fn read_from<T: Read>(reader: &mut T, buf: &mut [u8], start: usize) -> (r: Result<
    usize,
    Error,
>)
    requires
        start <= old(buf)@.len(),
    ensures
        final(buf)@.len() == old(buf)@.len(),
        final(buf)@.subrange(0, start as int) == old(buf)@.subrange(0, start as int),
        r is Ok ==> r->Ok_0 <= old(buf)@.len() - start,
{
    reader.read(&mut buf[start..])
}

/// Relies on `Read::read_exact`: it fills the buffer from `start` on, or fails;
/// the bytes before `start` are not handed to it.
#[verifier::external_body]
pub(crate) fn read_exact_from<T: Read>(reader: &mut T, buf: &mut [u8], start: usize) -> (r:
    Result<(), Error>)
    requires
        start <= old(buf)@.len(),
    ensures
        final(buf)@.len() == old(buf)@.len(),
        final(buf)@.subrange(0, start as int) == old(buf)@.subrange(0, start as int),
{
    reader.read_exact(&mut buf[start..])
}

/// Relies on `Read::read_to_end`: what it reads is appended to `buf`, also
/// when it fails part way, and `Ok(n)` counts the bytes appended.
#[verifier::external_body]
pub(crate) fn read_to_end_of<T: Read>(reader: &mut T, buf: &mut Vec<u8>) -> (r: Result<
    usize,
    Error,
>)
    ensures
        old(buf)@.len() <= final(buf)@.len(),
        final(buf)@.subrange(0, old(buf)@.len() as int) == old(buf)@,
        r is Ok ==> final(buf)@.len() == old(buf)@.len() + r->Ok_0,
{
    reader.read_to_end(buf)
}

/// Relies on `Read::read_to_string`: the text read is appended to `buf`, and
/// `Ok(n)` counts its bytes.
#[verifier::external_body]
pub(crate) fn read_to_string_of<T: Read>(reader: &mut T, buf: &mut String) -> (r: Result<
    usize,
    Error,
>)
    ensures
        old(buf)@.len() <= final(buf)@.len(),
        final(buf)@.subrange(0, old(buf)@.len() as int) == old(buf)@,
{
    reader.read_to_string(buf)
}

/// Relies on `Read::read_vectored`: `Ok(n)` counts the bytes placed in `bufs`.
#[verifier::external_body]
pub(crate) fn read_vectored_of<T: Read>(reader: &mut T, bufs: &mut [IoSliceMut<'_>]) -> (r:
    Result<usize, Error>) {
    reader.read_vectored(bufs)
}

/// Relies on `BufRead::fill_buf`: the bytes the source holds ready; empty at
/// the end of the stream.
#[verifier::external_body]
pub(crate) fn fill_buf_of<T: BufRead>(reader: &mut T) -> (r: Result<&[u8], Error>) {
    reader.fill_buf()
}

/// Relies on `io::Error::kind`: whether the call was interrupted and may be
/// tried again.
#[verifier::external_body]
pub(crate) fn is_interrupted(e: &Error) -> (r: bool) {
    e.kind() == ErrorKind::Interrupted
}

/// Relies on `io::Error::new`: an error of kind `InvalidData`.
#[verifier::external_body]
pub(crate) fn invalid_data(message: &str) -> (r: Error) {
    Error::new(ErrorKind::InvalidData, message)
}

/// Relies on `io::Error::new`: an error of kind `Other`.
#[verifier::external_body]
pub(crate) fn other_error(message: &str) -> (r: Error) {
    Error::new(ErrorKind::Other, message)
}

/// Relies on `str::from_utf8`: the text that `bytes` encode, where they are
/// valid UTF-8.
#[verifier::external_body]
pub(crate) fn utf8_text(bytes: &[u8]) -> (r: Option<&str>)
    ensures
        r is Some <==> valid_utf8(bytes@),
        r is Some ==> r->Some_0@ == decode_utf8(bytes@),
{
    std::str::from_utf8(bytes).ok()
}

/// Relies on `String::push_str`: `s` is appended to `buf`.
#[verifier::external_body]
pub(crate) fn push_text(buf: &mut String, s: &str)
    ensures
        final(buf)@ == old(buf)@ + s@,
{
    buf.push_str(s)
}

} // verus!
