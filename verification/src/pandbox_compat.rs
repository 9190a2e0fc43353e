//! Result codes and record/replay entry points that callers expect next to the introspection
//! interface. Recording and replaying are driven from the emulator's monitor, so the entry points
//! decline every request.

#![allow(non_camel_case_types, non_upper_case_globals)]

use vstd::prelude::*;

verus! {

pub const MEMTX_ERROR: u32 = 1;

pub const MEMTX_DECODE_ERROR: u32 = 2;

pub type RRCTRL_ret = i32;

pub const RRCTRL_ret_RRCTRL_OK: RRCTRL_ret = 0;

pub const RRCTRL_ret_RRCTRL_EINVALID: RRCTRL_ret = 1;

pub const RRCTRL_ret_RRCTRL_EPENDING: RRCTRL_ret = 2;

/// Declines to record, whatever the name and snapshot.
pub fn panda_record_begin(_name: Option<&str>, _snap: Option<&str>) -> (r: RRCTRL_ret)
    ensures
        r == RRCTRL_ret_RRCTRL_EINVALID,
{
    RRCTRL_ret_RRCTRL_EINVALID
}

/// There is no recording to end.
pub fn panda_record_end() -> (r: RRCTRL_ret)
    ensures
        r == RRCTRL_ret_RRCTRL_EINVALID,
{
    RRCTRL_ret_RRCTRL_EINVALID
}

/// Declines to replay, whatever the name.
pub fn panda_replay_begin(_name: Option<&str>) -> (r: RRCTRL_ret)
    ensures
        r == RRCTRL_ret_RRCTRL_EINVALID,
{
    RRCTRL_ret_RRCTRL_EINVALID
}

/// There is no replay to end.
pub fn panda_replay_end() -> (r: RRCTRL_ret)
    ensures
        r == RRCTRL_ret_RRCTRL_EINVALID,
{
    RRCTRL_ret_RRCTRL_EINVALID
}

} // verus!
