//! The control protocol: a closed dispatch over the recognized request
//! shapes. A request is a JSON value; anything unrecognized answers `null`
//! and changes nothing. Stop and clear requests act on the registry at once;
//! a listen request is answered with an action for the caller, which looks
//! the interface up and spawns the capture task before starting the session.

use vstd::prelude::*;
use vstd::string::StringExecFns;

use crate::json::{JsonRep, JsonVal};
use crate::registry::{spec_all_json, spec_cleared, spec_query_json, spec_stopped, Registry};

verus! {

/// What the caller must do after a request was handled: nothing, or spawn a
/// capture task for the named interface and start its session.
#[derive(Debug)]
pub enum ControlAction {
    Nothing,
    StartCapture(String),
}

/// The known-interface listing as JSON.
pub open spec fn spec_interfaces_json(names: Seq<String>) -> JsonRep {
    JsonRep::Arr(Seq::new(names.len(), |i: int| JsonRep::Str(names[i]@)))
}

/// The watermarks a `get` request carries: the object entries whose value is
/// an unsigned integer, in order; anything else is ignored.
pub open spec fn spec_watermarks(entries: Seq<(String, JsonVal)>) -> Seq<(String, u64)>
    decreases entries.len(),
{
    if entries.len() == 0 {
        Seq::empty()
    } else {
        (match entries.first().1 {
            JsonVal::UInt(n) => seq![(entries.first().0, n)],
            _ => Seq::empty(),
        }) + spec_watermarks(entries.drop_first())
    }
}

/// Extracts the watermarks of a `get` request.
fn extract_watermarks(entries: &Vec<(String, JsonVal)>) -> (r: Vec<(String, u64)>)
    ensures
        r@ == spec_watermarks(entries@),
{
    let n = entries.len();
    let mut out: Vec<(String, u64)> = Vec::new();
    let mut i: usize = 0;
    proof {
        assert(entries@.skip(0) =~= entries@);
        assert(out@ + spec_watermarks(entries@.skip(0)) =~= spec_watermarks(entries@));
    }
    while i < n
        invariant
            n == entries@.len(),
            i <= n,
            spec_watermarks(entries@) == out@ + spec_watermarks(entries@.skip(i as int)),
        decreases n - i,
    {
        proof {
            assert(entries@.skip(i as int).first() == entries@[i as int]);
            assert(entries@.skip(i as int).drop_first() =~= entries@.skip(i as int + 1));
        }
        let ghost pre = out@;
        match &entries[i].1 {
            JsonVal::UInt(v) => {
                out.push((entries[i].0.clone(), *v));
                proof {
                    assert(out@ + spec_watermarks(entries@.skip(i as int + 1)) =~= pre + (seq![
                        (entries@[i as int].0, *v),
                    ] + spec_watermarks(entries@.skip(i as int + 1))));
                }
            },
            _ => {
                proof {
                    assert(out@ + spec_watermarks(entries@.skip(i as int + 1)) =~= pre + (
                    Seq::empty() + spec_watermarks(entries@.skip(i as int + 1))));
                }
            },
        }
        i = i + 1;
    }
    proof {
        assert(spec_watermarks(entries@.skip(n as int)) =~= Seq::<(String, u64)>::empty());
        assert(out@ =~= out@ + spec_watermarks(entries@.skip(n as int)));
    }
    out
}

/// Renders the known-interface names as a JSON array of strings.
fn interfaces_json(interfaces: &Vec<String>) -> (r: JsonVal)
    ensures
        r@ == spec_interfaces_json(interfaces@),
{
    let n = interfaces.len();
    let mut out: Vec<JsonVal> = Vec::new();
    let mut i: usize = 0;
    while i < n
        invariant
            n == interfaces@.len(),
            i <= n,
            out@.len() == i,
            forall|j: int|
                0 <= j < i ==> (#[trigger] out@[j])@ == (JsonRep::Str(interfaces@[j]@)),
        decreases n - i,
    {
        out.push(JsonVal::Str(interfaces[i].clone()));
        i = i + 1;
    }
    let r = JsonVal::Arr(out);
    proof {
        assert(r@ matches JsonRep::Arr(s) && s =~= Seq::new(
            interfaces@.len(),
            |i: int| JsonRep::Str(interfaces@[i]@),
        ));
    }
    r
}

/// Handles one control request against the registry. Every recognized shape
/// is answered as the table in the protocol: queries read the registry and
/// answer with snapshots, stop and clear requests transform it, a listen
/// request is handed back as a start action, and every unrecognized shape
/// answers `null` and changes nothing.
pub fn handle_request(reg: &mut Registry, request: JsonVal, interfaces: &Vec<String>) -> (r: (
    JsonVal,
    ControlAction,
))
    requires
        old(reg).wf(),
    ensures
        final(reg).wf(),
        (request matches JsonVal::Str(s) && s@ == "get_all"@) ==> r.0@ == spec_all_json(old(reg)@)
            && final(reg)@ == old(reg)@ && (r.1 matches ControlAction::Nothing),
        (request matches JsonVal::Str(s) && s@ == "get_interfaces"@) ==> r.0@
            == spec_interfaces_json(interfaces@) && final(reg)@ == old(reg)@ && (
        r.1 matches ControlAction::Nothing),
        (request matches JsonVal::Str(s) && s@ != "get_all"@ && s@ != "get_interfaces"@) ==> (
        r.0 matches JsonVal::Null) && final(reg)@ == old(reg)@ && (
        r.1 matches ControlAction::Nothing),
        (request matches JsonVal::Obj(entries) && entries@.len() == 0) ==> (
        r.0 matches JsonVal::Null) && final(reg)@ == old(reg)@ && (
        r.1 matches ControlAction::Nothing),
        request matches JsonVal::Obj(entries) ==> ((entries@.len() > 0 && entries@[0].0@ == "get"@)
            ==> (entries@[0].1 matches JsonVal::Obj(wm) ==> r.0@ == spec_query_json(
            old(reg)@,
            spec_watermarks(wm@),
        ) && final(reg)@ == old(reg)@ && (r.1 matches ControlAction::Nothing))),
        request matches JsonVal::Obj(entries) ==> ((entries@.len() > 0 && entries@[0].0@
            == "listen_interfaces"@) ==> (entries@[0].1 matches JsonVal::Str(nm) ==> (
        r.0 matches JsonVal::Null) && final(reg)@ == old(reg)@ && (
        r.1 matches ControlAction::StartCapture(nm2) && nm2@ == nm@))),
        request matches JsonVal::Obj(entries) ==> ((entries@.len() > 0 && entries@[0].0@
            == "not_listen_interfaces"@) ==> (entries@[0].1 matches JsonVal::Str(nm) ==> (
        r.0 matches JsonVal::Null) && spec_stopped(old(reg)@, final(reg)@, nm@) && (
        r.1 matches ControlAction::Nothing))),
        request matches JsonVal::Obj(entries) ==> ((entries@.len() > 0 && entries@[0].0@
            == "clear_interfaces"@) ==> (entries@[0].1 matches JsonVal::Str(nm) ==> (
        r.0 matches JsonVal::Null) && spec_cleared(old(reg)@, final(reg)@, nm@) && (
        r.1 matches ControlAction::Nothing))),
        (request matches JsonVal::Obj(entries) && entries@.len() > 0 && entries@[0].0@ != "get"@
            && entries@[0].0@ != "listen_interfaces"@ && entries@[0].0@
            != "not_listen_interfaces"@ && entries@[0].0@ != "clear_interfaces"@) ==> (
        r.0 matches JsonVal::Null) && final(reg)@ == old(reg)@ && (
        r.1 matches ControlAction::Nothing),
        (request matches JsonVal::Obj(entries) && entries@.len() > 0 && entries@[0].0@ == "get"@
            && !(entries@[0].1 matches JsonVal::Obj(wm))) ==> (r.0 matches JsonVal::Null)
            && final(reg)@ == old(reg)@ && (r.1 matches ControlAction::Nothing),
        (request matches JsonVal::Obj(entries) && entries@.len() > 0 && (entries@[0].0@
            == "listen_interfaces"@ || entries@[0].0@ == "not_listen_interfaces"@ || entries@[0].0@
            == "clear_interfaces"@) && !(entries@[0].1 matches JsonVal::Str(nm))) ==> (
        r.0 matches JsonVal::Null) && final(reg)@ == old(reg)@ && (
        r.1 matches ControlAction::Nothing),
        !(request matches JsonVal::Str(s)) && !(request matches JsonVal::Obj(o)) ==> (
        r.0 matches JsonVal::Null) && final(reg)@ == old(reg)@ && (
        r.1 matches ControlAction::Nothing),
    {
    proof {
        reveal_strlit("get_all");
        reveal_strlit("get_interfaces");
        reveal_strlit("get");
        reveal_strlit("listen_interfaces");
        reveal_strlit("not_listen_interfaces");
        reveal_strlit("clear_interfaces");
        assert("get_all"@.len() == 7);
        assert("get_interfaces"@.len() == 14);
        assert("get"@.len() == 3);
        assert("listen_interfaces"@.len() == 17);
        assert("not_listen_interfaces"@.len() == 21);
        assert("clear_interfaces"@.len() == 16);
    }
    match request {
        JsonVal::Str(s) => {
            if s == String::from_str("get_all") {
                (reg.all_json(), ControlAction::Nothing)
            } else if s == String::from_str("get_interfaces") {
                (interfaces_json(interfaces), ControlAction::Nothing)
            } else {
                (JsonVal::Null, ControlAction::Nothing)
            }
        },
        JsonVal::Obj(mut entries) => {
            if entries.len() == 0 {
                return (JsonVal::Null, ControlAction::Nothing);
            }
            let (key, value) = entries.remove(0);
            if key == String::from_str("get") {
                match value {
                    JsonVal::Obj(wm_entries) => {
                        let watermarks = extract_watermarks(&wm_entries);
                        (reg.query_json(&watermarks), ControlAction::Nothing)
                    },
                    _ => (JsonVal::Null, ControlAction::Nothing),
                }
            } else if key == String::from_str("listen_interfaces") {
                match value {
                    JsonVal::Str(name) => (JsonVal::Null, ControlAction::StartCapture(name)),
                    _ => (JsonVal::Null, ControlAction::Nothing),
                }
            } else if key == String::from_str("not_listen_interfaces") {
                match value {
                    JsonVal::Str(name) => {
                        reg.stop(&name);
                        (JsonVal::Null, ControlAction::Nothing)
                    },
                    _ => (JsonVal::Null, ControlAction::Nothing),
                }
            } else if key == String::from_str("clear_interfaces") {
                match value {
                    JsonVal::Str(name) => {
                        reg.clear(&name);
                        (JsonVal::Null, ControlAction::Nothing)
                    },
                    _ => (JsonVal::Null, ControlAction::Nothing),
                }
            } else {
                (JsonVal::Null, ControlAction::Nothing)
            }
        },
        _ => (JsonVal::Null, ControlAction::Nothing),
    }
}

} // verus!
