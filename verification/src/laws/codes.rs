//! The numbers that callers know result codes by.

use crate::pandbox_compat::{
    RRCTRL_ret_RRCTRL_EINVALID, RRCTRL_ret_RRCTRL_EPENDING, RRCTRL_ret_RRCTRL_OK,
    MEMTX_DECODE_ERROR, MEMTX_ERROR,
};
use vstd::prelude::*;

verus! {

/// Callers compare with these numbers: success is 0, an invalid request 1 and a pending one 2; a
/// failed access has bit 0 set, and one that could not be decoded bit 1.
pub proof fn codes_are_what_callers_expect()
    ensures
        RRCTRL_ret_RRCTRL_OK == 0,
        RRCTRL_ret_RRCTRL_EINVALID == 1,
        RRCTRL_ret_RRCTRL_EPENDING == 2,
        MEMTX_ERROR == 1,
        MEMTX_DECODE_ERROR == 2,
{
}

} // verus!
