use vstd::prelude::*;
use crate::error::Error;

verus! {

/// A key size in bits is accepted when it is positive and a whole number of bytes.
pub open spec fn valid_key_size(bits: int) -> bool {
    bits > 0 && bits % 8 == 0
}

/// A number of keys is accepted when it is positive.
pub open spec fn valid_num_keys(n: int) -> bool {
    n > 0
}

pub fn validate_key_size(key_size_bits: i32) -> (r: Result<(), Error>)
    ensures
        r is Ok <==> valid_key_size(key_size_bits as int),
        r is Err ==> r == Err::<(), Error>(Error::InvalidArgument),
{
    if key_size_bits <= 0 {
        return Err(Error::InvalidArgument);
    }
    if key_size_bits % 8 != 0 {
        return Err(Error::InvalidArgument);
    }
    Ok(())
}

pub fn validate_num_keys(num_keys: i32) -> (r: Result<(), Error>)
    ensures
        r is Ok <==> valid_num_keys(num_keys as int),
        r is Err ==> r == Err::<(), Error>(Error::InvalidArgument),
{
    if num_keys <= 0 {
        return Err(Error::InvalidArgument);
    }
    Ok(())
}

} // verus!
