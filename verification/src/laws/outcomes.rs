//! What is stated of an outcome holds of all that was returned.

use crate::compressed::{profile_outcome, ProfileError};
use crate::dump::dump_outcome;
use crate::guest::Request;
use crate::handles::{handle_outcome, optional_pair_outcome, WinHandle, WinHandleView};
use crate::lists::{list_outcome, views, WinMod, WinProc, WinProcView, WinThread};
use crate::objects::{optional_text_outcome, pair_outcome};
use crate::process::{
    optional_process_outcome, params_outcome, pid_outcome, process_outcome, WinProcParams,
    WinProcParamsView,
};
use crate::reads::{bytes_outcome, lines_outcome, text_outcome};
use crate::surface::{c_text_outcome, optional_list_outcome};
use crate::text::texts;
use vstd::prelude::*;

verus! {

/// A view shows every field as it is.
pub proof fn views_show_every_field(
    proc: WinProc,
    thread: WinThread,
    module: WinMod,
    handle: WinHandle,
    params: WinProcParams,
)
    ensures
        proc@.eprocess == proc.eprocess,
        proc@.pid == proc.pid,
        proc@.ppid == proc.ppid,
        proc@.name == proc.name@,
        thread@.ethread == thread.ethread,
        thread@.tid == thread.tid,
        module@.base == module.base,
        module@.size == module.size,
        module@.name == module.name@,
        handle@.handle == handle.handle,
        handle@.object_header == handle.object_header,
        handle@.granted_access == handle.granted_access,
        handle@.type_label == handle.type_label@,
        handle@.object_name == handle.object_name@,
        params@.cwd == params.cwd@,
        params@.image_path == params.image_path@,
        params@.cmdline == params.cmdline@,
{
}

/// The views of a list are those of its items, in order, and none is missing.
pub proof fn every_item_is_shown<T: View>(v: Seq<T>, lines: Seq<String>)
    ensures
        views(v).len() == v.len(),
        forall|i: int| 0 <= i < v.len() ==> #[trigger] views(v)[i] == v[i]@,
        texts(lines).len() == lines.len(),
        forall|i: int| 0 <= i < lines.len() ==> #[trigger] texts(lines)[i] == lines[i]@,
{
}

/// An answer is shown with what it holds.
pub proof fn answers_are_shown<T: View>(
    v: Vec<T>,
    s: String,
    t: String,
    lines: Vec<String>,
    bytes: Vec<u8>,
    pid: u64,
    flag: bool,
    proc: WinProc,
    handle: WinHandle,
    params: WinProcParams,
)
    ensures
        list_outcome(Ok::<Vec<T>, Request>(v)) == Ok::<Seq<T::V>, Request>(views(v@)),
        optional_list_outcome(Ok::<Option<Vec<T>>, Request>(Some(v))) == Ok::<
            Option<Seq<T::V>>,
            Request,
        >(Some(views(v@))),
        text_outcome(Ok::<String, Request>(s)) == Ok::<Seq<char>, Request>(s@),
        optional_text_outcome(Ok::<Option<String>, Request>(Some(s))) == Ok::<
            Option<Seq<char>>,
            Request,
        >(Some(s@)),
        pair_outcome(Ok::<(String, String), Request>((s, t))) == Ok::<
            (Seq<char>, Seq<char>),
            Request,
        >((s@, t@)),
        optional_pair_outcome(Ok::<Option<(String, String)>, Request>(Some((s, t)))) == Ok::<
            Option<(Seq<char>, Seq<char>)>,
            Request,
        >(Some((s@, t@))),
        lines_outcome(Ok::<Vec<String>, Request>(lines)) == Ok::<Seq<Seq<char>>, Request>(
            texts(lines@),
        ),
        dump_outcome(Ok::<(bool, Vec<String>), Request>((flag, lines))) == Ok::<
            (bool, Seq<Seq<char>>),
            Request,
        >((flag, texts(lines@))),
        bytes_outcome(Ok::<Option<Vec<u8>>, Request>(Some(bytes))) == Ok::<
            Option<Seq<u8>>,
            Request,
        >(Some(bytes@)),
        pid_outcome(Ok::<(u64, String), Request>((pid, s))) == Ok::<(u64, Seq<char>), Request>(
            (pid, s@),
        ),
        process_outcome(Ok::<WinProc, Request>(proc)) == Ok::<WinProcView, Request>(proc@),
        optional_process_outcome(Ok::<Option<WinProc>, Request>(Some(proc))) == Ok::<
            Option<WinProcView>,
            Request,
        >(Some(proc@)),
        params_outcome(Ok::<WinProcParams, Request>(params)) == Ok::<WinProcParamsView, Request>(
            params@,
        ),
        handle_outcome(Ok::<Option<WinHandle>, Request>(Some(handle))) == Ok::<
            Option<WinHandleView>,
            Request,
        >(Some(handle@)),
        c_text_outcome(Some(s)) == Some(s@),
        profile_outcome(Ok::<String, ProfileError>(s)) == Ok::<Seq<char>, ProfileError>(s@),
{
}

/// Where there is none, or the answer is open, that is shown.
pub proof fn missing_answers_are_shown<T: View>(q: Request, e: ProfileError)
    ensures
        list_outcome(Err::<Vec<T>, Request>(q)) == Err::<Seq<T::V>, Request>(q),
        optional_list_outcome(Ok::<Option<Vec<T>>, Request>(None)) == Ok::<
            Option<Seq<T::V>>,
            Request,
        >(None),
        optional_list_outcome(Err::<Option<Vec<T>>, Request>(q)) == Err::<
            Option<Seq<T::V>>,
            Request,
        >(q),
        text_outcome(Err::<String, Request>(q)) == Err::<Seq<char>, Request>(q),
        optional_text_outcome(Ok::<Option<String>, Request>(None)) == Ok::<
            Option<Seq<char>>,
            Request,
        >(None),
        optional_text_outcome(Err::<Option<String>, Request>(q)) == Err::<
            Option<Seq<char>>,
            Request,
        >(q),
        lines_outcome(Err::<Vec<String>, Request>(q)) == Err::<Seq<Seq<char>>, Request>(q),
        dump_outcome(Err::<(bool, Vec<String>), Request>(q)) == Err::<
            (bool, Seq<Seq<char>>),
            Request,
        >(q),
        bytes_outcome(Ok::<Option<Vec<u8>>, Request>(None)) == Ok::<Option<Seq<u8>>, Request>(None),
        optional_pair_outcome(Ok::<Option<(String, String)>, Request>(None)) == Ok::<
            Option<(Seq<char>, Seq<char>)>,
            Request,
        >(None),
        optional_process_outcome(Ok::<Option<WinProc>, Request>(None)) == Ok::<
            Option<WinProcView>,
            Request,
        >(None),
        process_outcome(Err::<WinProc, Request>(q)) == Err::<WinProcView, Request>(q),
        params_outcome(Err::<WinProcParams, Request>(q)) == Err::<WinProcParamsView, Request>(q),
        c_text_outcome(None) is None,
        profile_outcome(Err::<String, ProfileError>(e)) == Err::<Seq<char>, ProfileError>(e),
{
}

} // verus!
