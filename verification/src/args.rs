//! The arguments of the command line.

use vstd::prelude::*;
use crate::error::ConvError;

verus! {

/// The source path and the destination path of a command line: its first
/// two arguments, in that order. What follows them is not read.
pub fn paths_of_args<T>(args: Vec<T>) -> (res: Result<(T, T), ConvError>)
    ensures
        args@.len() < 2 ==> res == Err::<(T, T), ConvError>(ConvError::Usage),
        args@.len() >= 2 ==> res == Ok::<(T, T), ConvError>((args@[0], args@[1])),
{
    let mut rest = args;
    if rest.len() < 2 {
        return Err(ConvError::Usage);
    }
    let src = rest.remove(0);
    let dst = rest.remove(0);
    Ok((src, dst))
}

} // verus!
