use vstd::prelude::*;

verus! {

/// Decodes a raw system call return value: `-4095..=-1` is an error whose number is
/// the negated value, anything else is a result, read as the `usize` of its bits.
pub fn check_err(ret: isize) -> (r: Result<usize, i32>)
    ensures
        -4096 < ret < 0 ==> r == Err::<usize, i32>(-ret as i32),
        !(-4096 < ret < 0) ==> r == Ok::<usize, i32>(ret as usize),
{
    proof {
        assert((ret as usize) > (-4096isize as usize) <==> (-4096 < ret && ret < 0)) by (bit_vector);
        assert(-4096 < ret && ret < 0 ==> (ret as i32) as int == ret as int) by (bit_vector);
    }
    if (ret as usize) > -4096isize as usize {
        Err(-(ret as i32))
    } else {
        Ok(ret as usize)
    }
}

} // verus!
