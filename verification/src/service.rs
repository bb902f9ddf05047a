//! Windows services: the protected set, and reading `sc` output.

use vstd::prelude::*;
use crate::text::{
    contains, contains_seq, split_whitespace, split_ws, parse_i32, spec_parse_i32,
    chars_of, string_of, lowercase_of, to_lowercase, seq_equal, lines, trim, views, trim_ws,
    lines_of, slice_chars,
};

verus! {

pub open spec fn protected_services_list() -> Seq<Seq<char>> {
    seq![
        "winlogon"@,
        "lsass"@,
        "csrss"@,
        "services"@,
        "smss"@,
        "svchost"@,
        "explorer"@,
        "dwm"@,
        "wininit"@,
        "spoolsv"@,
    ]
}

/// The services that may never be disabled.
pub fn protected_services() -> (r: Vec<&'static str>)
    ensures
        r@.len() == protected_services_list().len(),
        forall|i: int| 0 <= i < r@.len() ==> #[trigger] r@[i]@ == protected_services_list()[i],
{
    vec![
        "winlogon",
        "lsass",
        "csrss",
        "services",
        "smss",
        "svchost",
        "explorer",
        "dwm",
        "wininit",
        "spoolsv",
    ]
}

/// The service name, lowercased, is one of the protected services.
pub open spec fn spec_is_protected(name: Seq<char>) -> bool {
    exists|i: int|
        0 <= i < protected_services_list().len() && protected_services_list()[i] == lowercase_of(
            name,
        )
}

pub fn is_protected(name: &str) -> (r: bool)
    ensures
        r == spec_is_protected(name@),
{
    let lower = to_lowercase(name);
    let lc = chars_of(lower.as_str());
    let list = protected_services();
    let mut i: usize = 0;
    while i < list.len()
        invariant
            i <= list.len(),
            list@.len() == protected_services_list().len(),
            forall|k: int| 0 <= k < list@.len() ==> #[trigger] list@[k]@ == protected_services_list()[k],
            lc@ == lowercase_of(name@),
            forall|k: int| 0 <= k < i ==> protected_services_list()[k] != lowercase_of(name@),
        decreases list.len() - i,
    {
        let c = chars_of(list[i]);
        assert(list@[i as int]@ == protected_services_list()[i as int]);
        if seq_equal(&c, &lc) {
            return true;
        }
        i += 1;
    }
    false
}

/// The value of a field on one line of `sc` output. The line is trimmed;
/// when it starts with `FIELD:` the value is what follows; otherwise, when
/// it starts with the field name and holds a colon, the value is what
/// follows the first colon. The value is trimmed.
pub open spec fn field_value_of(line: Seq<char>, field: Seq<char>) -> Option<Seq<char>> {
    let t = trim_ws(line);
    if field.push(':').is_prefix_of(t) {
        Some(trim_ws(t.skip(field.len() + 1int)))
    } else if field.is_prefix_of(t) && exists|p: int| 0 <= p < t.len() && t[p] == ':' {
        let p = choose|p: int|
            0 <= p < t.len() && t[p] == ':' && forall|q: int| 0 <= q < p ==> t[q] != ':';
        Some(trim_ws(t.skip(p + 1)))
    } else {
        None
    }
}

pub open spec fn first_field(ls: Seq<Seq<char>>, field: Seq<char>) -> Option<Seq<char>>
    decreases ls.len(),
{
    if ls.len() == 0 {
        None
    } else if field_value_of(ls[0], field) is Some {
        field_value_of(ls[0], field)
    } else {
        first_field(ls.drop_first(), field)
    }
}

pub open spec fn spec_extract_field(output: Seq<char>, field: Seq<char>) -> Option<Seq<char>> {
    first_field(lines_of(output), field)
}

fn field_in_line(line: &Vec<char>, field: &Vec<char>) -> (r: Option<Vec<char>>)
    ensures
        match r {
            Some(v) => field_value_of(line@, field@) == Some(v@),
            None => field_value_of(line@, field@) is None,
        },
{
    let t = trim(line);
    let mut fcolon = slice_chars(field, 0, field.len());
    fcolon.push(':');
    assert(field@.subrange(0, field@.len() as int) =~= field@);
    if crate::text::starts_with(&t, &fcolon) {
        let rest = slice_chars(&t, fcolon.len(), t.len());
        assert(rest@ =~= t@.skip(field@.len() + 1int));
        return Some(trim(&rest));
    }
    if !crate::text::starts_with(&t, field) {
        return None;
    }
    let mut p: usize = 0;
    while p < t.len() && t[p] != ':'
        invariant
            p <= t.len(),
            forall|q: int| 0 <= q < p ==> t@[q] != ':',
        decreases t.len() - p,
    {
        p += 1;
    }
    if p == t.len() {
        return None;
    }
    let ghost pp = choose|pp: int|
        0 <= pp < t@.len() && t@[pp] == ':' && forall|q: int| 0 <= q < pp ==> t@[q] != ':';
    assert(pp == p as int) by {
        if pp < p {
        } else if pp > p {
        }
    }
    let rest = slice_chars(&t, p + 1, t.len());
    assert(rest@ =~= t@.skip(p + 1));
    Some(trim(&rest))
}

/// `extract_field`: the value of `field` in `sc` output (see
/// `field_value_of`), from the first line that has it.
pub fn extract_field(output: &str, field: &str) -> (r: Option<String>)
    ensures
        match r {
            Some(v) => spec_extract_field(output@, field@) == Some(v@),
            None => spec_extract_field(output@, field@) is None,
        },
{
    let oc = chars_of(output);
    let fc = chars_of(field);
    let ls = lines(&oc);
    let ghost all = views(ls@);
    let mut i: usize = 0;
    assert(all.skip(0) =~= all);
    while i < ls.len()
        invariant
            i <= ls.len(),
            all == views(ls@),
            all == lines_of(output@),
            fc@ == field@,
            first_field(all, field@) == first_field(all.skip(i as int), field@),
        decreases ls.len() - i,
    {
        assert(all.skip(i as int)[0] == all[i as int]);
        assert(all.skip(i as int).drop_first() =~= all.skip(i + 1));
        match field_in_line(&ls[i], &fc) {
            Some(v) => {
                return Some(string_of(&v));
            },
            None => {},
        }
        i += 1;
    }
    assert(all.skip(i as int).len() == 0);
    None
}

} // verus!

verus! {

/// What `sc` is asked for, or why nothing is asked.
pub struct ServiceReply {
    pub ok: bool,
    pub code: i64,
    pub message: String,
}

/// The `sc config ... start=` argument for a start type the user picks.
pub open spec fn spec_start_type_arg(start_type: Seq<char>) -> Option<Seq<char>> {
    if start_type == "Auto"@ {
        Some("auto"@)
    } else if start_type == "Manual"@ {
        Some("demand"@)
    } else if start_type == "Disabled"@ {
        Some("disabled"@)
    } else {
        None
    }
}

pub fn start_type_arg(start_type: &str) -> (r: Option<&'static str>)
    ensures
        match r {
            Some(a) => spec_start_type_arg(start_type@) == Some(a@),
            None => spec_start_type_arg(start_type@) is None,
        },
{
    let s = chars_of(start_type);
    let auto_ = chars_of("Auto");
    let manual = chars_of("Manual");
    let disabled = chars_of("Disabled");
    if seq_equal(&s, &auto_) {
        Some("auto")
    } else if seq_equal(&s, &manual) {
        Some("demand")
    } else if seq_equal(&s, &disabled) {
        Some("disabled")
    } else {
        None
    }
}

/// Before `sc config` runs: a protected service is refused, then an unknown
/// start type; otherwise the argument to hand to `sc`.
pub fn plan_start_type(name: &str, start_type: &str) -> (r: Result<&'static str, ServiceReply>)
    ensures
        spec_is_protected(name@) ==> (r matches Err(e) && !e.ok && e.code == -1
            && e.message@ == "Protected service: "@ + name@),
        !spec_is_protected(name@) && spec_start_type_arg(start_type@) is None ==> (r matches Err(
            e,
        ) && !e.ok && e.code == -1 && e.message@ == "Invalid start type"@),
        !spec_is_protected(name@) && spec_start_type_arg(start_type@) is Some ==> (r matches Ok(
            a,
        ) && spec_start_type_arg(start_type@) == Some(a@)),
{
    if is_protected(name) {
        let mut m = chars_of("Protected service: ");
        let n = chars_of(name);
        crate::text::append_chars(&mut m, &n);
        return Err(ServiceReply { ok: false, code: -1, message: string_of(&m) });
    }
    match start_type_arg(start_type) {
        Some(a) => Ok(a),
        None => Err(ServiceReply { ok: false, code: -1, message: "Invalid start type".to_string() }),
    }
}

/// `sc` reports a failure by the word `FAILED` in its output.
pub open spec fn spec_sc_failed(output: Seq<char>) -> bool {
    contains_seq(output, "FAILED"@) || contains_seq(output, "[SC] OpenService FAILED"@)
}

/// The reply after `sc config` ran: ok unless the output reports a failure;
/// code 0 or 1; the output as the message.
pub fn config_reply(output: &str) -> (r: ServiceReply)
    ensures
        r.ok == !spec_sc_failed(output@),
        r.code == (if r.ok { 0i64 } else { 1i64 }),
        r.message@ == output@,
{
    let o = chars_of(output);
    let f1 = chars_of("FAILED");
    let f2 = chars_of("[SC] OpenService FAILED");
    let ok = !contains(&o, &f1) && !contains(&o, &f2);
    ServiceReply { ok, code: if ok { 0 } else { 1 }, message: output.to_string() }
}

/// What `sc query NAME` says of one service.
pub struct ServiceState {
    pub name: String,
    pub state: String,
    pub state_code: i32,
    pub running: bool,
}

/// The `STATE` field's first two words: the numeric code and the state's name.
pub open spec fn state_words(output: Seq<char>) -> Option<(Seq<char>, Seq<char>)> {
    match spec_extract_field(output, "STATE"@) {
        Some(v) => if split_ws(v).len() >= 2 {
            Some((split_ws(v)[0], split_ws(v)[1]))
        } else {
            None
        },
        None => None,
    }
}

/// `sc query` output read back: `None` where the service does not exist
/// (the output says `FAILED` or `1060`); else its name (from `SERVICE_NAME`,
/// or the name asked for), state name, state code (0 where it is not a
/// number) and whether it is `RUNNING`.
pub fn query_reply(name: &str, output: &str) -> (r: Option<ServiceState>)
    ensures
        (contains_seq(output@, "FAILED"@) || contains_seq(output@, "1060"@)) <==> r is None,
        r matches Some(st) ==> {
            &&& st.name@ == (match spec_extract_field(output@, "SERVICE_NAME"@) {
                Some(v) => v,
                None => name@,
            })
            &&& match state_words(output@) {
                Some(w) => {
                    &&& st.state@ == w.1
                    &&& st.state_code == (match spec_parse_i32(w.0) {
                        Some(c) => c,
                        None => 0i32,
                    })
                    &&& st.running == (w.1 == "RUNNING"@)
                },
                None => st.state@ == Seq::<char>::empty() && st.state_code == 0 && !st.running,
            }
        },
{
    let o = chars_of(output);
    let f1 = chars_of("FAILED");
    let f2 = chars_of("1060");
    if contains(&o, &f1) || contains(&o, &f2) {
        return None;
    }
    let svc_name = match extract_field(output, "SERVICE_NAME") {
        Some(v) => v,
        None => name.to_string(),
    };
    let running_word = chars_of("RUNNING");
    let (state, state_code, running) = match extract_field(output, "STATE") {
        Some(v) => {
            let vc = chars_of(v.as_str());
            let parts = split_whitespace(&vc);
            proof {
                assert(views(parts@).len() == parts@.len());
            }
            if parts.len() >= 2 {
                assert(views(parts@)[0] == parts@[0]@);
                assert(views(parts@)[1] == parts@[1]@);
                let code = match parse_i32(&parts[0]) {
                    Some(c) => c,
                    None => 0,
                };
                let running = seq_equal(&parts[1], &running_word);
                (string_of(&parts[1]), code, running)
            } else {
                (String::new(), 0, false)
            }
        },
        None => (String::new(), 0, false),
    };
    Some(ServiceState { name: svc_name, state, state_code, running })
}

/// The service names in `sc query type= service state= all` output: the
/// `SERVICE_NAME` value of every line that has one, in order.
pub open spec fn spec_service_names(output: Seq<char>) -> Seq<Seq<char>> {
    lines_of(output).filter(|l: Seq<char>| field_value_of(l, "SERVICE_NAME"@) is Some).map_values(
        |l: Seq<char>| field_value_of(l, "SERVICE_NAME"@)->0,
    )
}

pub fn service_names(output: &str) -> (r: Vec<String>)
    ensures
        r@.map_values(|s: String| s@) == spec_service_names(output@),
{
    let oc = chars_of(output);
    let ls = lines(&oc);
    let fc = chars_of("SERVICE_NAME");
    let ghost all = views(ls@);
    let ghost pred = |l: Seq<char>| field_value_of(l, "SERVICE_NAME"@) is Some;
    let ghost val = |l: Seq<char>| field_value_of(l, "SERVICE_NAME"@)->0;
    let mut out: Vec<String> = Vec::new();
    let mut i: usize = 0;
    while i < ls.len()
        invariant
            i <= ls.len(),
            all == views(ls@),
            all == lines_of(output@),
            fc@ == "SERVICE_NAME"@,
            pred == (|l: Seq<char>| field_value_of(l, "SERVICE_NAME"@) is Some),
            val == (|l: Seq<char>| field_value_of(l, "SERVICE_NAME"@)->0),
            out@.map_values(|s: String| s@) == all.take(i as int).filter(pred).map_values(val),
        decreases ls.len() - i,
    {
        proof {
            assert(all.take(i + 1).drop_last() =~= all.take(i as int));
            assert(all.take(i + 1).last() == all[i as int]);
            all.take(i as int).lemma_filter_push(all[i as int], pred);
            assert(all.take(i + 1) =~= all.take(i as int).push(all[i as int]));
        }
        let ghost before = out@.map_values(|s: String| s@);
        let ghost ft = all.take(i as int).filter(pred);
        assert(ls@[i as int]@ == all[i as int]);
        match field_in_line(&ls[i], &fc) {
            Some(v) => {
                out.push(string_of(&v));
                assert(out@.map_values(|s: String| s@) =~= before.push(v@));
                assert(pred(all[i as int]));
                assert(ft.push(all[i as int]).map_values(val) =~= ft.map_values(val).push(
                    val(all[i as int]),
                ));
            },
            None => {
                assert(!pred(all[i as int]));
            },
        }
        i += 1;
        assert(out@.map_values(|s: String| s@) =~= all.take(i as int).filter(pred).map_values(
            val,
        ));
    }
    assert(all.take(i as int) =~= all);
    out
}

} // verus!

verus! {

/// The name `sc` gives each numeric start type.
pub open spec fn spec_start_type_name(code: i32) -> Option<Seq<char>> {
    if code == 0 {
        Some("BOOT_START"@)
    } else if code == 1 {
        Some("SYSTEM_START"@)
    } else if code == 2 {
        Some("AUTO_START"@)
    } else if code == 3 {
        Some("DEMAND_START"@)
    } else if code == 4 {
        Some("DISABLED"@)
    } else {
        None
    }
}

pub fn start_type_name(code: i32) -> (r: Option<&'static str>)
    ensures
        match r {
            Some(n) => spec_start_type_name(code) == Some(n@),
            None => spec_start_type_name(code) is None,
        },
{
    if code == 0 {
        Some("BOOT_START")
    } else if code == 1 {
        Some("SYSTEM_START")
    } else if code == 2 {
        Some("AUTO_START")
    } else if code == 3 {
        Some("DEMAND_START")
    } else if code == 4 {
        Some("DISABLED")
    } else {
        None
    }
}

/// What `sc qc NAME` says of a service's configuration.
pub struct ServiceInfo {
    pub start_type: Option<String>,
    pub start_type_code: Option<i32>,
    pub binary_path: Option<String>,
}

/// The `START_TYPE` field's first two words.
pub open spec fn start_type_words(output: Seq<char>) -> Option<(Seq<char>, Seq<char>)> {
    match spec_extract_field(output, "START_TYPE"@) {
        Some(v) => if split_ws(v).len() >= 2 {
            Some((split_ws(v)[0], split_ws(v)[1]))
        } else {
            None
        },
        None => None,
    }
}

pub open spec fn opt_string_view(o: Option<String>) -> Option<Seq<char>> {
    match o {
        Some(s) => Some(s@),
        None => None,
    }
}

/// `sc qc` output read back (`None` where the command failed): the start
/// type's name and code from `START_TYPE` (the name looked up from the code
/// when `sc` gave none), and the trimmed `BINARY_PATH_NAME`.
pub fn qc_info(qc_output: Option<&str>) -> (r: ServiceInfo)
    ensures
        match qc_output {
            None => r.start_type is None && r.start_type_code is None && r.binary_path is None,
            Some(out) => {
                &&& r.start_type_code == (match start_type_words(out@) {
                    Some(w) => spec_parse_i32(w.0),
                    None => None,
                })
                &&& opt_string_view(r.start_type) == (match start_type_words(out@) {
                    Some(w) => Some(w.1),
                    None => match r.start_type_code {
                        Some(c) => spec_start_type_name(c),
                        None => None,
                    },
                })
                &&& opt_string_view(r.binary_path) == (match spec_extract_field(
                    out@,
                    "BINARY_PATH_NAME"@,
                ) {
                    Some(v) => Some(trim_ws(v)),
                    None => None,
                })
            },
        },
{
    let out = match qc_output {
        Some(o) => o,
        None => {
            return ServiceInfo { start_type: None, start_type_code: None, binary_path: None };
        },
    };
    let mut start_type: Option<String> = None;
    let mut start_type_code: Option<i32> = None;
    match extract_field(out, "START_TYPE") {
        Some(st) => {
            let sc = chars_of(st.as_str());
            let parts = split_whitespace(&sc);
            proof {
                assert(views(parts@).len() == parts@.len());
            }
            if parts.len() >= 2 {
                assert(views(parts@)[0] == parts@[0]@);
                assert(views(parts@)[1] == parts@[1]@);
                start_type_code = parse_i32(&parts[0]);
                start_type = Some(string_of(&parts[1]));
            }
        },
        None => {},
    }
    let binary_path = match extract_field(out, "BINARY_PATH_NAME") {
        Some(bp) => {
            let bc = chars_of(bp.as_str());
            Some(string_of(&trim(&bc)))
        },
        None => None,
    };
    if start_type.is_none() {
        match start_type_code {
            Some(c) => match start_type_name(c) {
                Some(n) => {
                    start_type = Some(n.to_string());
                },
                None => {},
            },
            None => {},
        }
    }
    ServiceInfo { start_type, start_type_code, binary_path }
}

} // verus!
