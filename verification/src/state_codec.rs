//! The persisted record format: a JSON object with the record's fields in a
//! fixed order. The serializer is specified exactly, the parser accepts the
//! serializer's output, and a round-trip lemma ties the two together.

use vstd::prelude::*;

use crate::codec::{
    parse_lit, parse_nat, parse_string_body, ser_escaped, ser_nat,
    lemma_parse_lit_round_trip, lemma_parse_nat_round_trip, lemma_parse_nat_loop_lower,
    lemma_parse_string_body_advances, lemma_parse_string_body_round_trip,
    parse_lit_exec, parse_string_body_exec, parse_u64_exec, ser_escaped_exec, ser_nat_exec,
};
use crate::container::{Container, ContainerView, Status, Timestamp};
use crate::text::{append_str, chars_of_str, is_digit, string_from_chars};

verus! {

// ---------------------------------------------------------------------------
// Specification-level serializer
// ---------------------------------------------------------------------------
/// A quoted, escaped string.
pub open spec fn ser_string(s: Seq<char>) -> Seq<char> {
    seq!['"'] + ser_escaped(s) + seq!['"']
}

/// The quoted name of a status.
pub open spec fn ser_status(st: Status) -> Seq<char> {
    match st {
        Status::Initialized => "\"Initialized\""@,
        Status::Created => "\"Created\""@,
        Status::Running => "\"Running\""@,
        Status::Paused => "\"Paused\""@,
        Status::Stopped => "\"Stopped\""@,
        Status::Unknown => "\"Unknown\""@,
    }
}

/// A decimal integer, with a leading minus sign when negative.
pub open spec fn ser_i32(e: int) -> Seq<char> {
    if e < 0 {
        seq!['-'] + ser_nat((-e) as nat)
    } else {
        ser_nat(e as nat)
    }
}

/// An optional instant: `null`, or an object with its two fields.
pub open spec fn ser_opt_ts(o: Option<Timestamp>) -> Seq<char> {
    match o {
        None => "null"@,
        Some(t) => "{\"secs_since_epoch\":"@ + ser_nat(t.secs as nat)
            + ",\"nanos_since_epoch\":"@ + ser_nat(t.nanos as nat) + seq!['}'],
    }
}

/// The comma-separated quoted strings inside the argument array.
pub open spec fn ser_args_items(a: Seq<Seq<char>>) -> Seq<char>
    decreases a.len(),
{
    if a.len() == 0 {
        Seq::empty()
    } else if a.len() == 1 {
        ser_string(a[0])
    } else {
        ser_string(a[0]) + seq![','] + ser_args_items(a.skip(1))
    }
}

/// The argument array.
pub open spec fn ser_args(a: Seq<Seq<char>>) -> Seq<char> {
    seq!['['] + ser_args_items(a) + seq![']']
}

/// The serialized record, defined from the back so that each piece can be
/// peeled off the front in proofs: first the closing brace, then each field
/// with the literal that precedes it.
pub open spec fn ser_tail_close(v: ContainerView) -> Seq<char> {
    "}"@
}

/// The `args` field and everything after it.
pub open spec fn ser_tail_args(v: ContainerView) -> Seq<char> {
    ",\"args\":"@ + (ser_args(v.args) + ser_tail_close(v))
}

/// The `command` field and everything after it.
pub open spec fn ser_tail_command(v: ContainerView) -> Seq<char> {
    ",\"command\":"@ + (ser_string(v.command) + ser_tail_args(v))
}

/// The `finished_at` field and everything after it.
pub open spec fn ser_tail_finished(v: ContainerView) -> Seq<char> {
    ",\"finished_at\":"@ + (ser_opt_ts(v.finished_at) + ser_tail_command(v))
}

/// The `started_at` field and everything after it.
pub open spec fn ser_tail_started(v: ContainerView) -> Seq<char> {
    ",\"started_at\":"@ + (ser_opt_ts(v.started_at) + ser_tail_finished(v))
}

/// The `created_at` field and everything after it.
pub open spec fn ser_tail_created(v: ContainerView) -> Seq<char> {
    ",\"created_at\":"@ + (ser_opt_ts(v.created_at) + ser_tail_started(v))
}

/// The `exit_code` field and everything after it.
pub open spec fn ser_tail_exit(v: ContainerView) -> Seq<char> {
    ",\"exit_code\":"@ + (ser_i32(v.exit_code) + ser_tail_created(v))
}

/// The `status` field and everything after it.
pub open spec fn ser_tail_status(v: ContainerView) -> Seq<char> {
    ",\"status\":"@ + (ser_status(v.status) + ser_tail_exit(v))
}

/// The `name` field and everything after it.
pub open spec fn ser_tail_name(v: ContainerView) -> Seq<char> {
    ",\"name\":"@ + (ser_string(v.name) + ser_tail_status(v))
}

/// The serialized record.
pub open spec fn spec_ser_container(v: ContainerView) -> Seq<char> {
    "{\"id\":"@ + (ser_string(v.id) + ser_tail_name(v))
}

// ---------------------------------------------------------------------------
// Specification-level parser
// ---------------------------------------------------------------------------
/// A quoted string at `i`.
pub open spec fn parse_qstring(s: Seq<char>, i: int) -> Option<(Seq<char>, int)> {
    if 0 <= i < s.len() && s[i] == '"' {
        parse_string_body(s, i + 1)
    } else {
        None
    }
}

/// A status name at `i`, tried in declaration order.
pub open spec fn parse_status(s: Seq<char>, i: int) -> Option<(Status, int)> {
    if parse_lit(s, i, "\"Initialized\""@) is Some {
        Some((Status::Initialized, parse_lit(s, i, "\"Initialized\""@).unwrap()))
    } else if parse_lit(s, i, "\"Created\""@) is Some {
        Some((Status::Created, parse_lit(s, i, "\"Created\""@).unwrap()))
    } else if parse_lit(s, i, "\"Running\""@) is Some {
        Some((Status::Running, parse_lit(s, i, "\"Running\""@).unwrap()))
    } else if parse_lit(s, i, "\"Paused\""@) is Some {
        Some((Status::Paused, parse_lit(s, i, "\"Paused\""@).unwrap()))
    } else if parse_lit(s, i, "\"Stopped\""@) is Some {
        Some((Status::Stopped, parse_lit(s, i, "\"Stopped\""@).unwrap()))
    } else if parse_lit(s, i, "\"Unknown\""@) is Some {
        Some((Status::Unknown, parse_lit(s, i, "\"Unknown\""@).unwrap()))
    } else {
        None
    }
}

/// A signed 32-bit integer at `i`.
pub open spec fn parse_i32(s: Seq<char>, i: int) -> Option<(int, int)> {
    if 0 <= i < s.len() && s[i] == '-' {
        match parse_nat(s, i + 1) {
            Some((v, j)) => if v <= 0x8000_0000 {
                Some((-(v as int), j))
            } else {
                None
            },
            None => None,
        }
    } else {
        match parse_nat(s, i) {
            Some((v, j)) => if v <= 0x7fff_ffff {
                Some((v as int, j))
            } else {
                None
            },
            None => None,
        }
    }
}

/// An unsigned 64-bit number at `i`.
pub open spec fn parse_u64(s: Seq<char>, i: int) -> Option<(u64, int)> {
    match parse_nat(s, i) {
        Some((v, j)) => if v <= u64::MAX {
            Some((v as u64, j))
        } else {
            None
        },
        None => None,
    }
}

/// An unsigned 32-bit number at `i`.
pub open spec fn parse_u32(s: Seq<char>, i: int) -> Option<(u32, int)> {
    match parse_nat(s, i) {
        Some((v, j)) => if v <= u32::MAX {
            Some((v as u32, j))
        } else {
            None
        },
        None => None,
    }
}

/// An optional instant at `i`.
pub open spec fn parse_opt_ts(s: Seq<char>, i: int) -> Option<(Option<Timestamp>, int)> {
    if parse_lit(s, i, "null"@) is Some {
        Some((None, parse_lit(s, i, "null"@).unwrap()))
    } else {
        match parse_lit(s, i, "{\"secs_since_epoch\":"@) {
            Some(j1) => match parse_u64(s, j1) {
                Some((secs, j2)) => match parse_lit(s, j2, ",\"nanos_since_epoch\":"@) {
                    Some(j3) => match parse_u32(s, j3) {
                        Some((nanos, j4)) => match parse_lit(s, j4, "}"@) {
                            Some(j5) => Some((Some(Timestamp { secs, nanos }), j5)),
                            None => None,
                        },
                        None => None,
                    },
                    None => None,
                },
                None => None,
            },
            None => None,
        }
    }
}

/// One or more comma-separated quoted strings, up to and over the closing
/// bracket.
pub open spec fn parse_args_items(s: Seq<char>, i: int) -> Option<(Seq<Seq<char>>, int)>
    decreases s.len() - i,
{
    if i < 0 || i >= s.len() {
        None
    } else if s[i] == '"' {
        match parse_string_body(s, i + 1) {
            Some((t, j)) => {
                proof {
                    lemma_parse_string_body_advances(s, i + 1);
                }
                if j < s.len() && s[j] == ',' {
                    match parse_args_items(s, j + 1) {
                        Some((rest, k)) => Some((seq![t] + rest, k)),
                        None => None,
                    }
                } else if j < s.len() && s[j] == ']' {
                    Some((seq![t], j + 1))
                } else {
                    None
                }
            },
            None => None,
        }
    } else {
        None
    }
}

/// The argument array at `i`.
pub open spec fn parse_args(s: Seq<char>, i: int) -> Option<(Seq<Seq<char>>, int)> {
    if 0 <= i < s.len() && s[i] == '[' {
        if i + 1 < s.len() && s[i + 1] == ']' {
            Some((Seq::empty(), i + 2))
        } else {
            parse_args_items(s, i + 1)
        }
    } else {
        None
    }
}

/// The record view before any field has been read.
pub open spec fn init_view() -> ContainerView {
    ContainerView {
        id: Seq::empty(),
        name: Seq::empty(),
        status: Status::Unknown,
        exit_code: 0,
        created_at: None,
        started_at: None,
        finished_at: None,
        command: Seq::empty(),
        args: Seq::empty(),
    }
}

/// The closing brace; the input must be consumed exactly.
pub open spec fn pc_close(s: Seq<char>, i: int, c: ContainerView) -> Option<ContainerView> {
    match parse_lit(s, i, "}"@) {
        Some(j) => if j == s.len() {
            Some(c)
        } else {
            None
        },
        None => None,
    }
}

/// The `args` field, then the rest of the record.
pub open spec fn pc_args(s: Seq<char>, i: int, c: ContainerView) -> Option<ContainerView> {
    match parse_lit(s, i, ",\"args\":"@) {
        Some(j) => match parse_args(s, j) {
            Some((args, k)) => pc_close(s, k, ContainerView { args, ..c }),
            None => None,
        },
        None => None,
    }
}

/// The `command` field, then the rest of the record.
pub open spec fn pc_command(s: Seq<char>, i: int, c: ContainerView) -> Option<ContainerView> {
    match parse_lit(s, i, ",\"command\":"@) {
        Some(j) => match parse_qstring(s, j) {
            Some((command, k)) => pc_args(s, k, ContainerView { command, ..c }),
            None => None,
        },
        None => None,
    }
}

/// The `finished_at` field, then the rest of the record.
pub open spec fn pc_finished(s: Seq<char>, i: int, c: ContainerView) -> Option<ContainerView> {
    match parse_lit(s, i, ",\"finished_at\":"@) {
        Some(j) => match parse_opt_ts(s, j) {
            Some((finished_at, k)) => pc_command(s, k, ContainerView { finished_at, ..c }),
            None => None,
        },
        None => None,
    }
}

/// The `started_at` field, then the rest of the record.
pub open spec fn pc_started(s: Seq<char>, i: int, c: ContainerView) -> Option<ContainerView> {
    match parse_lit(s, i, ",\"started_at\":"@) {
        Some(j) => match parse_opt_ts(s, j) {
            Some((started_at, k)) => pc_finished(s, k, ContainerView { started_at, ..c }),
            None => None,
        },
        None => None,
    }
}

/// The `created_at` field, then the rest of the record.
pub open spec fn pc_created(s: Seq<char>, i: int, c: ContainerView) -> Option<ContainerView> {
    match parse_lit(s, i, ",\"created_at\":"@) {
        Some(j) => match parse_opt_ts(s, j) {
            Some((created_at, k)) => pc_started(s, k, ContainerView { created_at, ..c }),
            None => None,
        },
        None => None,
    }
}

/// The `exit_code` field, then the rest of the record.
pub open spec fn pc_exit(s: Seq<char>, i: int, c: ContainerView) -> Option<ContainerView> {
    match parse_lit(s, i, ",\"exit_code\":"@) {
        Some(j) => match parse_i32(s, j) {
            Some((exit_code, k)) => pc_created(s, k, ContainerView { exit_code, ..c }),
            None => None,
        },
        None => None,
    }
}

/// The `status` field, then the rest of the record.
pub open spec fn pc_status(s: Seq<char>, i: int, c: ContainerView) -> Option<ContainerView> {
    match parse_lit(s, i, ",\"status\":"@) {
        Some(j) => match parse_status(s, j) {
            Some((status, k)) => pc_exit(s, k, ContainerView { status, ..c }),
            None => None,
        },
        None => None,
    }
}

/// The `name` field, then the rest of the record.
pub open spec fn pc_name(s: Seq<char>, i: int, c: ContainerView) -> Option<ContainerView> {
    match parse_lit(s, i, ",\"name\":"@) {
        Some(j) => match parse_qstring(s, j) {
            Some((name, k)) => pc_status(s, k, ContainerView { name, ..c }),
            None => None,
        },
        None => None,
    }
}

/// The `id` field, then the rest of the record.
pub open spec fn pc_id(s: Seq<char>, i: int, c: ContainerView) -> Option<ContainerView> {
    match parse_lit(s, i, "{\"id\":"@) {
        Some(j) => match parse_qstring(s, j) {
            Some((id, k)) => pc_name(s, k, ContainerView { id, ..c }),
            None => None,
        },
        None => None,
    }
}

/// The whole record; the input must be consumed exactly.
pub open spec fn spec_parse_container(s: Seq<char>) -> Option<ContainerView> {
    pc_id(s, 0, init_view())
}

// ---------------------------------------------------------------------------
// Round-trip lemmas
// ---------------------------------------------------------------------------
/// A literal fails to match wherever one of its characters cannot.
proof fn lemma_parse_lit_mismatch(s: Seq<char>, i: int, lit: Seq<char>, k: int)
    requires
        0 <= k < lit.len(),
        !(0 <= i && i + k < s.len() && s[i + k] == lit[k]),
    ensures
        parse_lit(s, i, lit) is None,
{
    if parse_lit(s, i, lit) is Some {
        assert(s.subrange(i, i + lit.len())[k] == lit[k]);
        assert(s[i + k] == lit[k]);
    }
}

/// Round trip for quoted strings.
proof fn lemma_parse_qstring_round_trip(prefix: Seq<char>, content: Seq<char>, suffix: Seq<char>)
    ensures
        parse_qstring(prefix + ser_string(content) + suffix, prefix.len() as int) == Some(
            (content, prefix.len() as int + ser_string(content).len()),
        ),
{
    let s = prefix + ser_string(content) + suffix;
    let i = prefix.len() as int;
    assert(s[i] == '"');
    assert(s =~= (prefix + seq!['"']) + ser_escaped(content) + seq!['"'] + suffix);
    lemma_parse_string_body_round_trip(prefix + seq!['"'], content, suffix);
}

/// Round trip for status names.
proof fn lemma_parse_status_round_trip(prefix: Seq<char>, st: Status, suffix: Seq<char>)
    ensures
        parse_status(prefix + ser_status(st) + suffix, prefix.len() as int) == Some(
            (st, prefix.len() as int + ser_status(st).len()),
        ),
{
    let s = prefix + ser_status(st) + suffix;
    let i = prefix.len() as int;
    reveal_strlit("\"Initialized\"");
    reveal_strlit("\"Created\"");
    reveal_strlit("\"Running\"");
    reveal_strlit("\"Paused\"");
    reveal_strlit("\"Stopped\"");
    reveal_strlit("\"Unknown\"");
    lemma_parse_lit_round_trip(prefix, ser_status(st), suffix);
    assert(s[i + 1] == ser_status(st)[1]);
    match st {
        Status::Initialized => {},
        Status::Created => {
            lemma_parse_lit_mismatch(s, i, "\"Initialized\""@, 1);
        },
        Status::Running => {
            lemma_parse_lit_mismatch(s, i, "\"Initialized\""@, 1);
            lemma_parse_lit_mismatch(s, i, "\"Created\""@, 1);
        },
        Status::Paused => {
            lemma_parse_lit_mismatch(s, i, "\"Initialized\""@, 1);
            lemma_parse_lit_mismatch(s, i, "\"Created\""@, 1);
            lemma_parse_lit_mismatch(s, i, "\"Running\""@, 1);
        },
        Status::Stopped => {
            lemma_parse_lit_mismatch(s, i, "\"Initialized\""@, 1);
            lemma_parse_lit_mismatch(s, i, "\"Created\""@, 1);
            lemma_parse_lit_mismatch(s, i, "\"Running\""@, 1);
            lemma_parse_lit_mismatch(s, i, "\"Paused\""@, 1);
        },
        Status::Unknown => {
            lemma_parse_lit_mismatch(s, i, "\"Initialized\""@, 1);
            lemma_parse_lit_mismatch(s, i, "\"Created\""@, 1);
            lemma_parse_lit_mismatch(s, i, "\"Running\""@, 1);
            lemma_parse_lit_mismatch(s, i, "\"Paused\""@, 1);
            lemma_parse_lit_mismatch(s, i, "\"Stopped\""@, 1);
        },
    }
}

/// Round trip for signed 32-bit integers.
proof fn lemma_parse_i32_round_trip(prefix: Seq<char>, e: int, suffix: Seq<char>)
    requires
        -0x8000_0000 <= e <= 0x7fff_ffff,
        suffix.len() == 0 || !is_digit(suffix[0]),
    ensures
        parse_i32(prefix + ser_i32(e) + suffix, prefix.len() as int) == Some(
            (e, prefix.len() as int + ser_i32(e).len()),
        ),
{
    let s = prefix + ser_i32(e) + suffix;
    let i = prefix.len() as int;
    if e < 0 {
        let n = (-e) as nat;
        assert(s[i] == '-');
        assert(s =~= (prefix + seq!['-']) + ser_nat(n) + suffix);
        lemma_parse_nat_round_trip(prefix + seq!['-'], n, suffix);
        assert(parse_nat(s, i + 1) == Some((n, i + 1 + ser_nat(n).len())));
    } else {
        let n = e as nat;
        crate::codec::lemma_ser_nat_props(n);
        assert(s[i] == ser_nat(n)[0]);
        assert(is_digit(s[i]));
        assert(s[i] != '-') by {
            assert(is_digit(s[i]));
        }
        lemma_parse_nat_round_trip(prefix, n, suffix);
    }
}

/// Round trip for unsigned numbers within `u64` range.
proof fn lemma_parse_u64_round_trip(prefix: Seq<char>, n: u64, suffix: Seq<char>)
    requires
        suffix.len() == 0 || !is_digit(suffix[0]),
    ensures
        parse_u64(prefix + ser_nat(n as nat) + suffix, prefix.len() as int) == Some(
            (n, prefix.len() as int + ser_nat(n as nat).len()),
        ),
{
    lemma_parse_nat_round_trip(prefix, n as nat, suffix);
}

/// Round trip for unsigned numbers within `u32` range.
proof fn lemma_parse_u32_round_trip(prefix: Seq<char>, n: u32, suffix: Seq<char>)
    requires
        suffix.len() == 0 || !is_digit(suffix[0]),
    ensures
        parse_u32(prefix + ser_nat(n as nat) + suffix, prefix.len() as int) == Some(
            (n, prefix.len() as int + ser_nat(n as nat).len()),
        ),
{
    lemma_parse_nat_round_trip(prefix, n as nat, suffix);
}

/// Round trip for optional instants.
#[verifier::rlimit(100)]
#[verifier::spinoff_prover]
proof fn lemma_parse_opt_ts_round_trip(prefix: Seq<char>, o: Option<Timestamp>, suffix: Seq<char>)
    requires
        suffix.len() == 0 || !is_digit(suffix[0]),
    ensures
        parse_opt_ts(prefix + ser_opt_ts(o) + suffix, prefix.len() as int) == Some(
            (o, prefix.len() as int + ser_opt_ts(o).len()),
        ),
{
    let s = prefix + ser_opt_ts(o) + suffix;
    let i = prefix.len() as int;
    reveal_strlit("null");
    reveal_strlit("{\"secs_since_epoch\":");
    reveal_strlit(",\"nanos_since_epoch\":");
    reveal_strlit("}");
    match o {
        None => {
            lemma_parse_lit_round_trip(prefix, "null"@, suffix);
        },
        Some(t) => {
            let l1 = "{\"secs_since_epoch\":"@;
            let l2 = ",\"nanos_since_epoch\":"@;
            let d1 = ser_nat(t.secs as nat);
            let d2 = ser_nat(t.nanos as nat);
            assert(s[i] == '{');
            lemma_parse_lit_mismatch(s, i, "null"@, 0);
            let p1 = prefix + l1;
            assert(s =~= p1 + d1 + (l2 + d2 + seq!['}'] + suffix));
            lemma_parse_lit_round_trip(prefix, l1, d1 + l2 + d2 + seq!['}'] + suffix);
            assert(parse_lit(s, i, l1) == Some(p1.len() as int)) by {
                assert(prefix + l1 + (d1 + l2 + d2 + seq!['}'] + suffix) =~= s);
            }
            lemma_parse_u64_round_trip(p1, t.secs, l2 + d2 + seq!['}'] + suffix);
            assert((l2 + d2 + seq!['}'] + suffix)[0] == ',');
            let p2 = p1 + d1;
            let p3 = p2 + l2;
            assert(s =~= p2 + l2 + (d2 + seq!['}'] + suffix));
            lemma_parse_lit_round_trip(p2, l2, d2 + seq!['}'] + suffix);
            assert(s =~= p3 + d2 + (seq!['}'] + suffix));
            lemma_parse_u32_round_trip(p3, t.nanos, seq!['}'] + suffix);
            assert((seq!['}'] + suffix)[0] == '}');
            let p4 = p3 + d2;
            assert(s =~= p4 + "}"@ + suffix);
            lemma_parse_lit_round_trip(p4, "}"@, suffix);
            assert(ser_opt_ts(o).len() == l1.len() + d1.len() + l2.len() + d2.len() + 1);
        },
    }
}

/// Round trip for nonempty argument lists.
proof fn lemma_parse_args_items_round_trip(prefix: Seq<char>, a: Seq<Seq<char>>, suffix: Seq<char>)
    requires
        a.len() >= 1,
    ensures
        parse_args_items(prefix + ser_args_items(a) + seq![']'] + suffix, prefix.len() as int)
            == Some((a, prefix.len() as int + ser_args_items(a).len() + 1)),
    decreases a.len(),
{
    let s = prefix + ser_args_items(a) + seq![']'] + suffix;
    let i = prefix.len() as int;
    if a.len() == 1 {
        assert(ser_args_items(a) == ser_string(a[0]));
        assert(s[i] == '"');
        assert(s =~= (prefix + seq!['"']) + ser_escaped(a[0]) + seq!['"'] + (seq![']'] + suffix));
        lemma_parse_string_body_round_trip(prefix + seq!['"'], a[0], seq![']'] + suffix);
        let j = i + 1 + ser_escaped(a[0]).len() + 1;
        assert(parse_string_body(s, i + 1) == Some((a[0], j)));
        assert(s[j] == ']');
        assert(seq![a[0]] =~= a);
        assert(ser_string(a[0]).len() == ser_escaped(a[0]).len() + 2);
    } else {
        let rest = a.skip(1);
        assert(ser_args_items(a) == ser_string(a[0]) + seq![','] + ser_args_items(rest));
        assert(s[i] == '"');
        let tail = seq![','] + ser_args_items(rest) + seq![']'] + suffix;
        assert(s =~= (prefix + seq!['"']) + ser_escaped(a[0]) + seq!['"'] + tail);
        lemma_parse_string_body_round_trip(prefix + seq!['"'], a[0], tail);
        let j = i + 1 + ser_escaped(a[0]).len() + 1;
        assert(parse_string_body(s, i + 1) == Some((a[0], j)));
        assert(s[j] == ',');
        let p2 = prefix + ser_string(a[0]) + seq![','];
        assert(s =~= p2 + ser_args_items(rest) + seq![']'] + suffix);
        lemma_parse_args_items_round_trip(p2, rest, suffix);
        assert(p2.len() == j + 1);
        assert(parse_args_items(s, j + 1) == Some(
            (rest, p2.len() as int + ser_args_items(rest).len() + 1),
        ));
        assert(seq![a[0]] + rest =~= a);
        assert(ser_args_items(a).len() == ser_string(a[0]).len() + 1 + ser_args_items(rest).len());
    }
}

/// Round trip for argument arrays.
proof fn lemma_parse_args_round_trip(prefix: Seq<char>, a: Seq<Seq<char>>, suffix: Seq<char>)
    ensures
        parse_args(prefix + ser_args(a) + suffix, prefix.len() as int) == Some(
            (a, prefix.len() as int + ser_args(a).len()),
        ),
{
    let s = prefix + ser_args(a) + suffix;
    let i = prefix.len() as int;
    assert(s[i] == '[');
    if a.len() == 0 {
        assert(ser_args_items(a) == Seq::<char>::empty());
        assert(ser_args(a) =~= seq!['[', ']']);
        assert(s[i + 1] == ']');
        assert(a =~= Seq::<Seq<char>>::empty());
    } else {
        assert(ser_args_items(a).len() >= 1);
        assert(ser_args_items(a)[0] == '"') by {
            if a.len() == 1 {
                assert(ser_args_items(a) == ser_string(a[0]));
            } else {
                assert(ser_args_items(a) == ser_string(a[0]) + seq![','] + ser_args_items(
                    a.skip(1),
                ));
            }
            assert(ser_string(a[0])[0] == '"');
        }
        assert(s[i + 1] == '"');
        let p2 = prefix + seq!['['];
        assert(s =~= p2 + ser_args_items(a) + seq![']'] + suffix);
        lemma_parse_args_items_round_trip(p2, a, suffix);
    }
}

/// The record fields that must lie in machine ranges for serialization.
pub open spec fn in_ranges(v: ContainerView) -> bool {
    -0x8000_0000 <= v.exit_code <= 0x7fff_ffff
}

/// The view of any record lies in range, so every record round-trips.
pub proof fn lemma_record_in_ranges(c: &Container)
    ensures
        in_ranges(c@),
{
}

/// Crash consistency of the persisted state: provided the file holds either
/// the prior record's bytes or the new record's bytes (which the atomic
/// rename guarantees), reading it back yields exactly that record, never a
/// mixture or a third value.
pub proof fn lemma_state_file_crash_consistency(
    prior: ContainerView,
    fresh: ContainerView,
    content: Seq<char>,
)
    requires
        in_ranges(prior),
        in_ranges(fresh),
        content == spec_ser_container(prior) || content == spec_ser_container(fresh),
    ensures
        spec_parse_container(content) == Some(prior) || spec_parse_container(content) == Some(
            fresh,
        ),
{
    lemma_container_round_trip(prior);
    lemma_container_round_trip(fresh);
}

/// One literal step of the sequential record parse.
proof fn step_lit(s: Seq<char>, p: Seq<char>, lit: Seq<char>, rest: Seq<char>)
    requires
        s == p + (lit + rest),
    ensures
        parse_lit(s, p.len() as int, lit) == Some(p.len() as int + lit.len()),
        s == (p + lit) + rest,
        (p + lit).len() == p.len() + lit.len(),
{
    assert(p + (lit + rest) =~= (p + lit) + rest);
    lemma_parse_lit_round_trip(p, lit, rest);
}

/// One quoted-string step of the sequential record parse.
proof fn step_qstring(s: Seq<char>, p: Seq<char>, content: Seq<char>, rest: Seq<char>)
    requires
        s == p + (ser_string(content) + rest),
    ensures
        parse_qstring(s, p.len() as int) == Some(
            (content, p.len() as int + ser_string(content).len()),
        ),
        s == (p + ser_string(content)) + rest,
        (p + ser_string(content)).len() == p.len() + ser_string(content).len(),
{
    assert(p + (ser_string(content) + rest) =~= (p + ser_string(content)) + rest);
    lemma_parse_qstring_round_trip(p, content, rest);
}

/// One status step of the sequential record parse.
proof fn step_status(s: Seq<char>, p: Seq<char>, st: Status, rest: Seq<char>)
    requires
        s == p + (ser_status(st) + rest),
    ensures
        parse_status(s, p.len() as int) == Some((st, p.len() as int + ser_status(st).len())),
        s == (p + ser_status(st)) + rest,
        (p + ser_status(st)).len() == p.len() + ser_status(st).len(),
{
    assert(p + (ser_status(st) + rest) =~= (p + ser_status(st)) + rest);
    lemma_parse_status_round_trip(p, st, rest);
}

/// One signed-integer step of the sequential record parse.
proof fn step_i32(s: Seq<char>, p: Seq<char>, e: int, rest: Seq<char>)
    requires
        s == p + (ser_i32(e) + rest),
        -0x8000_0000 <= e <= 0x7fff_ffff,
        rest.len() == 0 || !is_digit(rest[0]),
    ensures
        parse_i32(s, p.len() as int) == Some((e, p.len() as int + ser_i32(e).len())),
        s == (p + ser_i32(e)) + rest,
        (p + ser_i32(e)).len() == p.len() + ser_i32(e).len(),
{
    assert(p + (ser_i32(e) + rest) =~= (p + ser_i32(e)) + rest);
    lemma_parse_i32_round_trip(p, e, rest);
}

/// One optional-instant step of the sequential record parse.
proof fn step_opt_ts(s: Seq<char>, p: Seq<char>, o: Option<Timestamp>, rest: Seq<char>)
    requires
        s == p + (ser_opt_ts(o) + rest),
        rest.len() == 0 || !is_digit(rest[0]),
    ensures
        parse_opt_ts(s, p.len() as int) == Some((o, p.len() as int + ser_opt_ts(o).len())),
        s == (p + ser_opt_ts(o)) + rest,
        (p + ser_opt_ts(o)).len() == p.len() + ser_opt_ts(o).len(),
{
    assert(p + (ser_opt_ts(o) + rest) =~= (p + ser_opt_ts(o)) + rest);
    lemma_parse_opt_ts_round_trip(p, o, rest);
}

/// One argument-array step of the sequential record parse.
proof fn step_args(s: Seq<char>, p: Seq<char>, a: Seq<Seq<char>>, rest: Seq<char>)
    requires
        s == p + (ser_args(a) + rest),
    ensures
        parse_args(s, p.len() as int) == Some((a, p.len() as int + ser_args(a).len())),
        s == (p + ser_args(a)) + rest,
        (p + ser_args(a)).len() == p.len() + ser_args(a).len(),
{
    assert(p + (ser_args(a) + rest) =~= (p + ser_args(a)) + rest);
    lemma_parse_args_round_trip(p, a, rest);
}

/// The record suffix from the closing brace, parsed back.
proof fn lemma_pc_close_rt(p: Seq<char>, v: ContainerView, c: ContainerView)
    ensures
        pc_close(p + ser_tail_close(v), p.len() as int, c) == Some(c),
{
    let s = p + ser_tail_close(v);
    assert(s =~= p + ("}"@ + Seq::<char>::empty()));
    step_lit(s, p, "}"@, Seq::<char>::empty());
    assert(s =~= p + "}"@);
}

/// The record suffix from the `args` field, parsed back.
proof fn lemma_pc_args_rt(p: Seq<char>, v: ContainerView, c: ContainerView)
    ensures
        pc_args(p + ser_tail_args(v), p.len() as int, c) == Some(
            ContainerView { args: v.args, ..c },
        ),
{
    let s = p + ser_tail_args(v);
    step_lit(s, p, ",\"args\":"@, ser_args(v.args) + ser_tail_close(v));
    let p1 = p + ",\"args\":"@;
    step_args(s, p1, v.args, ser_tail_close(v));
    let p2 = p1 + ser_args(v.args);
    lemma_pc_close_rt(p2, v, ContainerView { args: v.args, ..c });
}

/// The record suffix from the `command` field, parsed back.
proof fn lemma_pc_command_rt(p: Seq<char>, v: ContainerView, c: ContainerView)
    ensures
        pc_command(p + ser_tail_command(v), p.len() as int, c) == Some(
            ContainerView { command: v.command, args: v.args, ..c },
        ),
{
    let s = p + ser_tail_command(v);
    step_lit(s, p, ",\"command\":"@, ser_string(v.command) + ser_tail_args(v));
    let p1 = p + ",\"command\":"@;
    step_qstring(s, p1, v.command, ser_tail_args(v));
    let p2 = p1 + ser_string(v.command);
    lemma_pc_args_rt(p2, v, ContainerView { command: v.command, ..c });
    assert(ContainerView {
        args: v.args,
        ..ContainerView { command: v.command, ..c }
    } =~= ContainerView { command: v.command, args: v.args, ..c });
}

/// The record suffix from the `finished_at` field, parsed back.
proof fn lemma_pc_finished_rt(p: Seq<char>, v: ContainerView, c: ContainerView)
    ensures
        pc_finished(p + ser_tail_finished(v), p.len() as int, c) == Some(
            ContainerView { finished_at: v.finished_at, command: v.command, args: v.args, ..c },
        ),
{
    let s = p + ser_tail_finished(v);
    step_lit(s, p, ",\"finished_at\":"@, ser_opt_ts(v.finished_at) + ser_tail_command(v));
    let p1 = p + ",\"finished_at\":"@;
    reveal_strlit(",\"command\":");
    assert(ser_tail_command(v)[0] == ',') by {
        assert(ser_tail_command(v)[0] == ",\"command\":"@[0]);
    }
    step_opt_ts(s, p1, v.finished_at, ser_tail_command(v));
    let p2 = p1 + ser_opt_ts(v.finished_at);
    lemma_pc_command_rt(p2, v, ContainerView { finished_at: v.finished_at, ..c });
    assert(ContainerView {
        command: v.command,
        args: v.args,
        ..ContainerView { finished_at: v.finished_at, ..c }
    } =~= ContainerView { finished_at: v.finished_at, command: v.command, args: v.args, ..c });
}

/// The record suffix from the `started_at` field, parsed back.
proof fn lemma_pc_started_rt(p: Seq<char>, v: ContainerView, c: ContainerView)
    ensures
        pc_started(p + ser_tail_started(v), p.len() as int, c) == Some(
            ContainerView {
                started_at: v.started_at,
                finished_at: v.finished_at,
                command: v.command,
                args: v.args,
                ..c
            },
        ),
{
    let s = p + ser_tail_started(v);
    step_lit(s, p, ",\"started_at\":"@, ser_opt_ts(v.started_at) + ser_tail_finished(v));
    let p1 = p + ",\"started_at\":"@;
    reveal_strlit(",\"finished_at\":");
    assert(ser_tail_finished(v)[0] == ',') by {
        assert(ser_tail_finished(v)[0] == ",\"finished_at\":"@[0]);
    }
    step_opt_ts(s, p1, v.started_at, ser_tail_finished(v));
    let p2 = p1 + ser_opt_ts(v.started_at);
    lemma_pc_finished_rt(p2, v, ContainerView { started_at: v.started_at, ..c });
    assert(ContainerView {
        finished_at: v.finished_at,
        command: v.command,
        args: v.args,
        ..ContainerView { started_at: v.started_at, ..c }
    } =~= ContainerView {
        started_at: v.started_at,
        finished_at: v.finished_at,
        command: v.command,
        args: v.args,
        ..c
    });
}

/// The record suffix from the `created_at` field, parsed back.
proof fn lemma_pc_created_rt(p: Seq<char>, v: ContainerView, c: ContainerView)
    ensures
        pc_created(p + ser_tail_created(v), p.len() as int, c) == Some(
            ContainerView {
                created_at: v.created_at,
                started_at: v.started_at,
                finished_at: v.finished_at,
                command: v.command,
                args: v.args,
                ..c
            },
        ),
{
    let s = p + ser_tail_created(v);
    step_lit(s, p, ",\"created_at\":"@, ser_opt_ts(v.created_at) + ser_tail_started(v));
    let p1 = p + ",\"created_at\":"@;
    reveal_strlit(",\"started_at\":");
    assert(ser_tail_started(v)[0] == ',') by {
        assert(ser_tail_started(v)[0] == ",\"started_at\":"@[0]);
    }
    step_opt_ts(s, p1, v.created_at, ser_tail_started(v));
    let p2 = p1 + ser_opt_ts(v.created_at);
    lemma_pc_started_rt(p2, v, ContainerView { created_at: v.created_at, ..c });
    assert(ContainerView {
        started_at: v.started_at,
        finished_at: v.finished_at,
        command: v.command,
        args: v.args,
        ..ContainerView { created_at: v.created_at, ..c }
    } =~= ContainerView {
        created_at: v.created_at,
        started_at: v.started_at,
        finished_at: v.finished_at,
        command: v.command,
        args: v.args,
        ..c
    });
}

/// The record suffix from the `exit_code` field, parsed back.
proof fn lemma_pc_exit_rt(p: Seq<char>, v: ContainerView, c: ContainerView)
    requires
        in_ranges(v),
    ensures
        pc_exit(p + ser_tail_exit(v), p.len() as int, c) == Some(
            ContainerView {
                exit_code: v.exit_code,
                created_at: v.created_at,
                started_at: v.started_at,
                finished_at: v.finished_at,
                command: v.command,
                args: v.args,
                ..c
            },
        ),
{
    let s = p + ser_tail_exit(v);
    step_lit(s, p, ",\"exit_code\":"@, ser_i32(v.exit_code) + ser_tail_created(v));
    let p1 = p + ",\"exit_code\":"@;
    reveal_strlit(",\"created_at\":");
    assert(ser_tail_created(v)[0] == ',') by {
        assert(ser_tail_created(v)[0] == ",\"created_at\":"@[0]);
    }
    assert(!is_digit(ser_tail_created(v)[0]));
    step_i32(s, p1, v.exit_code, ser_tail_created(v));
    let p2 = p1 + ser_i32(v.exit_code);
    lemma_pc_created_rt(p2, v, ContainerView { exit_code: v.exit_code, ..c });
    assert(ContainerView {
        created_at: v.created_at,
        started_at: v.started_at,
        finished_at: v.finished_at,
        command: v.command,
        args: v.args,
        ..ContainerView { exit_code: v.exit_code, ..c }
    } =~= ContainerView {
        exit_code: v.exit_code,
        created_at: v.created_at,
        started_at: v.started_at,
        finished_at: v.finished_at,
        command: v.command,
        args: v.args,
        ..c
    });
}

/// The record suffix from the `status` field, parsed back.
proof fn lemma_pc_status_rt(p: Seq<char>, v: ContainerView, c: ContainerView)
    requires
        in_ranges(v),
    ensures
        pc_status(p + ser_tail_status(v), p.len() as int, c) == Some(
            ContainerView {
                status: v.status,
                exit_code: v.exit_code,
                created_at: v.created_at,
                started_at: v.started_at,
                finished_at: v.finished_at,
                command: v.command,
                args: v.args,
                ..c
            },
        ),
{
    let s = p + ser_tail_status(v);
    step_lit(s, p, ",\"status\":"@, ser_status(v.status) + ser_tail_exit(v));
    let p1 = p + ",\"status\":"@;
    step_status(s, p1, v.status, ser_tail_exit(v));
    let p2 = p1 + ser_status(v.status);
    lemma_pc_exit_rt(p2, v, ContainerView { status: v.status, ..c });
    assert(ContainerView {
        exit_code: v.exit_code,
        created_at: v.created_at,
        started_at: v.started_at,
        finished_at: v.finished_at,
        command: v.command,
        args: v.args,
        ..ContainerView { status: v.status, ..c }
    } =~= ContainerView {
        status: v.status,
        exit_code: v.exit_code,
        created_at: v.created_at,
        started_at: v.started_at,
        finished_at: v.finished_at,
        command: v.command,
        args: v.args,
        ..c
    });
}

/// The record suffix from the `name` field, parsed back.
proof fn lemma_pc_name_rt(p: Seq<char>, v: ContainerView, c: ContainerView)
    requires
        in_ranges(v),
    ensures
        pc_name(p + ser_tail_name(v), p.len() as int, c) == Some(
            ContainerView {
                name: v.name,
                status: v.status,
                exit_code: v.exit_code,
                created_at: v.created_at,
                started_at: v.started_at,
                finished_at: v.finished_at,
                command: v.command,
                args: v.args,
                ..c
            },
        ),
{
    let s = p + ser_tail_name(v);
    step_lit(s, p, ",\"name\":"@, ser_string(v.name) + ser_tail_status(v));
    let p1 = p + ",\"name\":"@;
    step_qstring(s, p1, v.name, ser_tail_status(v));
    let p2 = p1 + ser_string(v.name);
    lemma_pc_status_rt(p2, v, ContainerView { name: v.name, ..c });
    assert(ContainerView {
        status: v.status,
        exit_code: v.exit_code,
        created_at: v.created_at,
        started_at: v.started_at,
        finished_at: v.finished_at,
        command: v.command,
        args: v.args,
        ..ContainerView { name: v.name, ..c }
    } =~= ContainerView {
        name: v.name,
        status: v.status,
        exit_code: v.exit_code,
        created_at: v.created_at,
        started_at: v.started_at,
        finished_at: v.finished_at,
        command: v.command,
        args: v.args,
        ..c
    });
}

/// Round trip for whole records: parsing a serialized record yields exactly
/// the record serialized.
pub proof fn lemma_container_round_trip(v: ContainerView)
    requires
        in_ranges(v),
    ensures
        spec_parse_container(spec_ser_container(v)) == Some(v),
{
    let s = spec_ser_container(v);
    let c0 = init_view();
    let p0 = Seq::<char>::empty();
    assert(s == p0 + ("{\"id\":"@ + (ser_string(v.id) + ser_tail_name(v)))) by {
        assert(p0 + s =~= s);
    }
    step_lit(s, p0, "{\"id\":"@, ser_string(v.id) + ser_tail_name(v));
    let p1 = p0 + "{\"id\":"@;
    step_qstring(s, p1, v.id, ser_tail_name(v));
    let p2 = p1 + ser_string(v.id);
    lemma_pc_name_rt(p2, v, ContainerView { id: v.id, ..c0 });
    assert(pc_id(s, 0, c0) == Some(ContainerView {
        name: v.name,
        status: v.status,
        exit_code: v.exit_code,
        created_at: v.created_at,
        started_at: v.started_at,
        finished_at: v.finished_at,
        command: v.command,
        args: v.args,
        ..ContainerView { id: v.id, ..c0 }
    }));
    assert(ContainerView {
        name: v.name,
        status: v.status,
        exit_code: v.exit_code,
        created_at: v.created_at,
        started_at: v.started_at,
        finished_at: v.finished_at,
        command: v.command,
        args: v.args,
        ..ContainerView { id: v.id, ..c0 }
    } =~= v);
}

// ---------------------------------------------------------------------------
// Executable serializer
// ---------------------------------------------------------------------------
/// Writes a quoted, escaped string onto `out`.
fn ser_string_exec(out: &mut Vec<char>, s: &str)
    ensures
        final(out)@ == old(out)@ + ser_string(s@),
{
    out.push('"');
    let cv = chars_of_str(s);
    ser_escaped_exec(out, &cv);
    out.push('"');
    proof {
        assert(final(out)@ =~= old(out)@ + ser_string(s@));
    }
}

/// Writes the quoted status name onto `out`.
fn ser_status_exec(out: &mut Vec<char>, st: Status)
    ensures
        final(out)@ == old(out)@ + ser_status(st),
{
    match st {
        Status::Initialized => append_str(out, "\"Initialized\""),
        Status::Created => append_str(out, "\"Created\""),
        Status::Running => append_str(out, "\"Running\""),
        Status::Paused => append_str(out, "\"Paused\""),
        Status::Stopped => append_str(out, "\"Stopped\""),
        Status::Unknown => append_str(out, "\"Unknown\""),
    }
}

/// Writes a signed decimal integer onto `out`.
fn ser_i32_exec(out: &mut Vec<char>, e: i32)
    ensures
        final(out)@ == old(out)@ + ser_i32(e as int),
{
    if e < 0 {
        out.push('-');
        let m: u64 = (-(e as i64)) as u64;
        proof {
            assert(m as nat == (-(e as int)) as nat);
        }
        ser_nat_exec(out, m);
        proof {
            assert(final(out)@ =~= old(out)@ + (seq!['-'] + ser_nat(m as nat)));
        }
    } else {
        ser_nat_exec(out, e as u64);
    }
}

/// Writes an optional instant onto `out`.
fn ser_opt_ts_exec(out: &mut Vec<char>, o: &Option<Timestamp>)
    ensures
        final(out)@ == old(out)@ + ser_opt_ts(*o),
{
    match o {
        None => append_str(out, "null"),
        Some(t) => {
            append_str(out, "{\"secs_since_epoch\":");
            ser_nat_exec(out, t.secs);
            append_str(out, ",\"nanos_since_epoch\":");
            ser_nat_exec(out, t.nanos as u64);
            out.push('}');
            proof {
                assert(final(out)@ =~= old(out)@ + ser_opt_ts(*o));
            }
        },
    }
}

/// Writes the items of the argument array from index `i` on.
fn ser_args_items_exec(out: &mut Vec<char>, args: &Vec<String>, i: usize)
    requires
        i < args@.len(),
    ensures
        final(out)@ == old(out)@ + ser_args_items(args.deep_view().skip(i as int)),
    decreases args@.len() - i,
{
    let ghost a = args.deep_view().skip(i as int);
    proof {
        assert(a.len() == args@.len() - i);
        assert(a[0] == args.deep_view()[i as int]);
        assert(args.deep_view()[i as int] == args@[i as int]@);
    }
    let n = args.len();
    ser_string_exec(out, args[i].as_str());
    if i + 1 < n {
        out.push(',');
        ser_args_items_exec(out, args, i + 1);
        proof {
            assert(a.skip(1) =~= args.deep_view().skip(i as int + 1));
            assert(ser_args_items(a) == ser_string(a[0]) + seq![','] + ser_args_items(a.skip(1)));
            assert(final(out)@ =~= old(out)@ + ser_args_items(a));
        }
    } else {
        proof {
            assert(a.len() == 1);
            assert(ser_args_items(a) == ser_string(a[0]));
            assert(final(out)@ =~= old(out)@ + ser_args_items(a));
        }
    }
}

/// Writes the argument array onto `out`.
fn ser_args_exec(out: &mut Vec<char>, args: &Vec<String>)
    ensures
        final(out)@ == old(out)@ + ser_args(args.deep_view()),
{
    out.push('[');
    if args.len() > 0 {
        ser_args_items_exec(out, args, 0);
        proof {
            assert(args.deep_view().skip(0) =~= args.deep_view());
        }
    } else {
        proof {
            assert(args.deep_view().len() == 0);
            assert(ser_args_items(args.deep_view()) =~= Seq::<char>::empty());
        }
    }
    out.push(']');
    proof {
        assert(final(out)@ =~= old(out)@ + ser_args(args.deep_view()));
    }
}

/// Serializes a record to its persisted textual form.
#[verifier::rlimit(100)]
#[verifier::spinoff_prover]
pub fn serialize_container(c: &Container) -> (s: String)
    ensures
        s@ == spec_ser_container(c@),
{
    let ghost v = c@;
    let mut out: Vec<char> = Vec::new();
    append_str(&mut out, "{\"id\":");
    proof {
        assert(out@ + (ser_string(v.id) + ser_tail_name(v)) =~= spec_ser_container(v));
    }
    ser_string_exec(&mut out, c.id.as_str());
    proof {
        assert(out@ + ser_tail_name(v) =~= spec_ser_container(v));
    }
    append_str(&mut out, ",\"name\":");
    proof {
        assert(out@ + (ser_string(v.name) + ser_tail_status(v)) =~= spec_ser_container(v));
    }
    ser_string_exec(&mut out, c.name.as_str());
    proof {
        assert(out@ + ser_tail_status(v) =~= spec_ser_container(v));
    }
    append_str(&mut out, ",\"status\":");
    proof {
        assert(out@ + (ser_status(v.status) + ser_tail_exit(v)) =~= spec_ser_container(v));
    }
    ser_status_exec(&mut out, c.status);
    proof {
        assert(out@ + ser_tail_exit(v) =~= spec_ser_container(v));
    }
    append_str(&mut out, ",\"exit_code\":");
    proof {
        assert(out@ + (ser_i32(v.exit_code) + ser_tail_created(v)) =~= spec_ser_container(v));
    }
    ser_i32_exec(&mut out, c.exit_code);
    proof {
        assert(out@ + ser_tail_created(v) =~= spec_ser_container(v));
    }
    append_str(&mut out, ",\"created_at\":");
    proof {
        assert(out@ + (ser_opt_ts(v.created_at) + ser_tail_started(v)) =~= spec_ser_container(v));
    }
    ser_opt_ts_exec(&mut out, &c.created_at);
    proof {
        assert(out@ + ser_tail_started(v) =~= spec_ser_container(v));
    }
    append_str(&mut out, ",\"started_at\":");
    proof {
        assert(out@ + (ser_opt_ts(v.started_at) + ser_tail_finished(v)) =~= spec_ser_container(v));
    }
    ser_opt_ts_exec(&mut out, &c.started_at);
    proof {
        assert(out@ + ser_tail_finished(v) =~= spec_ser_container(v));
    }
    append_str(&mut out, ",\"finished_at\":");
    proof {
        assert(out@ + (ser_opt_ts(v.finished_at) + ser_tail_command(v)) =~= spec_ser_container(v));
    }
    ser_opt_ts_exec(&mut out, &c.finished_at);
    proof {
        assert(out@ + ser_tail_command(v) =~= spec_ser_container(v));
    }
    append_str(&mut out, ",\"command\":");
    proof {
        assert(out@ + (ser_string(v.command) + ser_tail_args(v)) =~= spec_ser_container(v));
    }
    ser_string_exec(&mut out, c.command.as_str());
    proof {
        assert(out@ + ser_tail_args(v) =~= spec_ser_container(v));
    }
    append_str(&mut out, ",\"args\":");
    proof {
        assert(out@ + (ser_args(v.args) + ser_tail_close(v)) =~= spec_ser_container(v));
    }
    ser_args_exec(&mut out, &c.args);
    proof {
        assert(out@ + ser_tail_close(v) =~= spec_ser_container(v));
    }
    out.push('}');
    proof {
        reveal_strlit("}");
        assert(seq!['}'] =~= "}"@);
        assert(out@ =~= spec_ser_container(v));
    }
    string_from_chars(&out)
}

// ---------------------------------------------------------------------------
// Executable parser
// ---------------------------------------------------------------------------
/// Reads a quoted string at `i`, mirroring `parse_qstring`.
fn parse_qstring_exec(s: &Vec<char>, i: usize) -> (r: Option<(Vec<char>, usize)>)
    requires
        i <= s@.len(),
    ensures
        match parse_qstring(s@, i as int) {
            Some(p) => r matches Some(q) && q.0@ == p.0 && q.1 == p.1 && p.1 <= s@.len(),
            None => r is None,
        },
{
    if i < s.len() && s[i] == '"' {
        proof {
            if parse_string_body(s@, i as int + 1) is Some {
                lemma_parse_string_body_advances(s@, i as int + 1);
            }
        }
        parse_string_body_exec(s, i + 1)
    } else {
        None
    }
}

/// Reads a status name at `i`, mirroring `parse_status`.
fn parse_status_exec(s: &Vec<char>, i: usize) -> (r: Option<(Status, usize)>)
    requires
        i <= s@.len(),
    ensures
        match parse_status(s@, i as int) {
            Some(p) => r matches Some(q) && q.0 == p.0 && q.1 == p.1 && p.1 <= s@.len(),
            None => r is None,
        },
{
    match parse_lit_exec(s, i, "\"Initialized\"") {
        Some(j) => {
            return Some((Status::Initialized, j));
        },
        None => {},
    }
    match parse_lit_exec(s, i, "\"Created\"") {
        Some(j) => {
            return Some((Status::Created, j));
        },
        None => {},
    }
    match parse_lit_exec(s, i, "\"Running\"") {
        Some(j) => {
            return Some((Status::Running, j));
        },
        None => {},
    }
    match parse_lit_exec(s, i, "\"Paused\"") {
        Some(j) => {
            return Some((Status::Paused, j));
        },
        None => {},
    }
    match parse_lit_exec(s, i, "\"Stopped\"") {
        Some(j) => {
            return Some((Status::Stopped, j));
        },
        None => {},
    }
    match parse_lit_exec(s, i, "\"Unknown\"") {
        Some(j) => {
            return Some((Status::Unknown, j));
        },
        None => {},
    }
    None
}

/// Reads a signed 32-bit integer at `i`, mirroring `parse_i32`.
fn parse_i32_exec(s: &Vec<char>, i: usize) -> (r: Option<(i32, usize)>)
    requires
        i <= s@.len(),
    ensures
        match parse_i32(s@, i as int) {
            Some(p) => r matches Some(q) && q.0 as int == p.0 && q.1 == p.1 && p.1 <= s@.len(),
            None => r is None,
        },
{
    proof {
        lemma_parse_nat_loop_lower(s@, i as int, 0);
        lemma_parse_nat_loop_lower(s@, i as int + 1, 0);
    }
    if i < s.len() && s[i] == '-' {
        match parse_u64_exec(s, i + 1) {
            Some((v, j)) => {
                if v <= 0x8000_0000u64 {
                    Some(((-(v as i64)) as i32, j))
                } else {
                    None
                }
            },
            None => None,
        }
    } else {
        match parse_u64_exec(s, i) {
            Some((v, j)) => {
                if v <= 0x7fff_ffffu64 {
                    Some((v as i32, j))
                } else {
                    None
                }
            },
            None => None,
        }
    }
}

/// Reads an unsigned 64-bit number at `i`, mirroring `parse_u64`.
fn parse_u64f_exec(s: &Vec<char>, i: usize) -> (r: Option<(u64, usize)>)
    requires
        i <= s@.len(),
    ensures
        match parse_u64(s@, i as int) {
            Some(p) => r matches Some(q) && q.0 == p.0 && q.1 == p.1 && p.1 <= s@.len(),
            None => r is None,
        },
{
    proof {
        lemma_parse_nat_loop_lower(s@, i as int, 0);
    }
    parse_u64_exec(s, i)
}

/// Reads an unsigned 32-bit number at `i`, mirroring `parse_u32`.
fn parse_u32_exec(s: &Vec<char>, i: usize) -> (r: Option<(u32, usize)>)
    requires
        i <= s@.len(),
    ensures
        match parse_u32(s@, i as int) {
            Some(p) => r matches Some(q) && q.0 == p.0 && q.1 == p.1 && p.1 <= s@.len(),
            None => r is None,
        },
{
    proof {
        lemma_parse_nat_loop_lower(s@, i as int, 0);
    }
    match parse_u64_exec(s, i) {
        Some((v, j)) => {
            if v <= 0xffff_ffffu64 {
                Some((v as u32, j))
            } else {
                None
            }
        },
        None => None,
    }
}

/// Reads an optional instant at `i`, mirroring `parse_opt_ts`.
fn parse_opt_ts_exec(s: &Vec<char>, i: usize) -> (r: Option<(Option<Timestamp>, usize)>)
    requires
        i <= s@.len(),
    ensures
        match parse_opt_ts(s@, i as int) {
            Some(p) => r matches Some(q) && q.0 == p.0 && q.1 == p.1 && p.1 <= s@.len(),
            None => r is None,
        },
{
    match parse_lit_exec(s, i, "null") {
        Some(j) => {
            return Some((None, j));
        },
        None => {},
    }
    let j1 = match parse_lit_exec(s, i, "{\"secs_since_epoch\":") {
        Some(j) => j,
        None => {
            return None;
        },
    };
    let (secs, j2) = match parse_u64f_exec(s, j1) {
        Some(p) => p,
        None => {
            return None;
        },
    };
    let j3 = match parse_lit_exec(s, j2, ",\"nanos_since_epoch\":") {
        Some(j) => j,
        None => {
            return None;
        },
    };
    let (nanos, j4) = match parse_u32_exec(s, j3) {
        Some(p) => p,
        None => {
            return None;
        },
    };
    let j5 = match parse_lit_exec(s, j4, "}") {
        Some(j) => j,
        None => {
            return None;
        },
    };
    Some((Some(Timestamp { secs, nanos }), j5))
}

/// Reads the argument array at `i`, mirroring `parse_args`.
fn parse_args_exec(s: &Vec<char>, i: usize) -> (r: Option<(Vec<String>, usize)>)
    requires
        i <= s@.len(),
    ensures
        match parse_args(s@, i as int) {
            Some(p) => r matches Some(q) && q.0.deep_view() == p.0 && q.1 == p.1 && p.1
                <= s@.len(),
            None => r is None,
        },
{
    if !(i < s.len() && s[i] == '[') {
        return None;
    }
    if i + 1 < s.len() && s[i + 1] == ']' {
        let empty_items: Vec<String> = Vec::new();
        proof {
            assert(empty_items.deep_view() =~= Seq::<Seq<char>>::empty());
        }
        return Some((empty_items, i + 2));
    }
    let mut items: Vec<String> = Vec::new();
    let mut j: usize = i + 1;
    proof {
        assert(items.deep_view() =~= Seq::<Seq<char>>::empty());
        assert forall|rest: Seq<Seq<char>>|
            true implies #[trigger] (items.deep_view() + rest) == rest by {
            assert(items.deep_view() + rest =~= rest);
        }
    }
    loop
        invariant
            i + 1 <= j <= s@.len(),
            parse_args(s@, i as int) == (match parse_args_items(s@, j as int) {
                Some((rest, k)) => Some((items.deep_view() + rest, k)),
                None => None::<(Seq<Seq<char>>, int)>,
            }),
        decreases s@.len() - j,
    {
        if j >= s.len() {
            return None;
        }
        if s[j] != '"' {
            return None;
        }
        let (tv, j2) = match parse_string_body_exec(s, j + 1) {
            Some(p) => p,
            None => {
                return None;
            },
        };
        proof {
            lemma_parse_string_body_advances(s@, j as int + 1);
        }
        let item = string_from_chars(&tv);
        let ghost old_dv = items.deep_view();
        items.push(item);
        proof {
            assert forall|m: int|
                0 <= m < items.deep_view().len() implies items.deep_view()[m] == old_dv.push(
                tv@,
            )[m] by {
                assert(items.deep_view()[m] == items@[m]@);
                if m < old_dv.len() {
                    assert(items@[m] == items@.drop_last()[m]);
                }
            }
            assert(items.deep_view() =~= old_dv.push(tv@));
        }
        if j2 < s.len() && s[j2] == ',' {
            proof {
                assert forall|rest: Seq<Seq<char>>|
                    true implies #[trigger] (items.deep_view() + rest) == old_dv + (seq![tv@]
                    + rest) by {
                    assert(items.deep_view() + rest =~= old_dv + (seq![tv@] + rest));
                }
            }
            j = j2 + 1;
        } else if j2 < s.len() && s[j2] == ']' {
            proof {
                assert(parse_args_items(s@, j as int) == Some((seq![tv@], j2 as int + 1)));
                assert(old_dv + seq![tv@] =~= items.deep_view());
            }
            return Some((items, j2 + 1));
        } else {
            return None;
        }
    }
}

/// Parses a record from its persisted textual form; fails on exactly the
/// inputs that the specification-level parser rejects.
#[verifier::rlimit(100)]
#[verifier::spinoff_prover]
pub fn deserialize_container(s: &str) -> (r: Option<Container>)
    ensures
        match spec_parse_container(s@) {
            Some(v) => r matches Some(c) && c@ == v,
            None => r is None,
        },
{
    let sv = chars_of_str(s);
    let ghost c0 = init_view();
    let i1 = match parse_lit_exec(&sv, 0, "{\"id\":") {
        Some(j) => j,
        None => {
            return None;
        },
    };
    let (idv, i2) = match parse_qstring_exec(&sv, i1) {
        Some(p) => p,
        None => {
            return None;
        },
    };
    let ghost c1 = ContainerView { id: idv@, ..c0 };
    proof {
        assert(spec_parse_container(s@) == pc_name(s@, i2 as int, c1));
    }
    let i3 = match parse_lit_exec(&sv, i2, ",\"name\":") {
        Some(j) => j,
        None => {
            return None;
        },
    };
    let (namev, i4) = match parse_qstring_exec(&sv, i3) {
        Some(p) => p,
        None => {
            return None;
        },
    };
    let ghost c2 = ContainerView { name: namev@, ..c1 };
    proof {
        assert(spec_parse_container(s@) == pc_status(s@, i4 as int, c2));
    }
    let i5 = match parse_lit_exec(&sv, i4, ",\"status\":") {
        Some(j) => j,
        None => {
            return None;
        },
    };
    let (status, i6) = match parse_status_exec(&sv, i5) {
        Some(p) => p,
        None => {
            return None;
        },
    };
    let ghost c3 = ContainerView { status, ..c2 };
    proof {
        assert(spec_parse_container(s@) == pc_exit(s@, i6 as int, c3));
    }
    let i7 = match parse_lit_exec(&sv, i6, ",\"exit_code\":") {
        Some(j) => j,
        None => {
            return None;
        },
    };
    let (exit_code, i8) = match parse_i32_exec(&sv, i7) {
        Some(p) => p,
        None => {
            return None;
        },
    };
    let ghost c4 = ContainerView { exit_code: exit_code as int, ..c3 };
    proof {
        assert(spec_parse_container(s@) == pc_created(s@, i8 as int, c4));
    }
    let i9 = match parse_lit_exec(&sv, i8, ",\"created_at\":") {
        Some(j) => j,
        None => {
            return None;
        },
    };
    let (created_at, i10) = match parse_opt_ts_exec(&sv, i9) {
        Some(p) => p,
        None => {
            return None;
        },
    };
    let ghost c5 = ContainerView { created_at, ..c4 };
    proof {
        assert(spec_parse_container(s@) == pc_started(s@, i10 as int, c5));
    }
    let i11 = match parse_lit_exec(&sv, i10, ",\"started_at\":") {
        Some(j) => j,
        None => {
            return None;
        },
    };
    let (started_at, i12) = match parse_opt_ts_exec(&sv, i11) {
        Some(p) => p,
        None => {
            return None;
        },
    };
    let ghost c6 = ContainerView { started_at, ..c5 };
    proof {
        assert(spec_parse_container(s@) == pc_finished(s@, i12 as int, c6));
    }
    let i13 = match parse_lit_exec(&sv, i12, ",\"finished_at\":") {
        Some(j) => j,
        None => {
            return None;
        },
    };
    let (finished_at, i14) = match parse_opt_ts_exec(&sv, i13) {
        Some(p) => p,
        None => {
            return None;
        },
    };
    let ghost c7 = ContainerView { finished_at, ..c6 };
    proof {
        assert(spec_parse_container(s@) == pc_command(s@, i14 as int, c7));
    }
    let i15 = match parse_lit_exec(&sv, i14, ",\"command\":") {
        Some(j) => j,
        None => {
            return None;
        },
    };
    let (commandv, i16) = match parse_qstring_exec(&sv, i15) {
        Some(p) => p,
        None => {
            return None;
        },
    };
    let ghost c8 = ContainerView { command: commandv@, ..c7 };
    proof {
        assert(spec_parse_container(s@) == pc_args(s@, i16 as int, c8));
    }
    let i17 = match parse_lit_exec(&sv, i16, ",\"args\":") {
        Some(j) => j,
        None => {
            return None;
        },
    };
    let (args, i18) = match parse_args_exec(&sv, i17) {
        Some(p) => p,
        None => {
            return None;
        },
    };
    let ghost c9 = ContainerView { args: args.deep_view(), ..c8 };
    proof {
        assert(spec_parse_container(s@) == pc_close(s@, i18 as int, c9));
    }
    let i19 = match parse_lit_exec(&sv, i18, "}") {
        Some(j) => j,
        None => {
            return None;
        },
    };
    if i19 != sv.len() {
        return None;
    }
    let c = Container {
        id: string_from_chars(&idv),
        name: string_from_chars(&namev),
        status,
        exit_code,
        created_at,
        started_at,
        finished_at,
        command: string_from_chars(&commandv),
        args,
    };
    proof {
        assert(spec_parse_container(s@) == Some(c9));
        assert(c@ =~= c9);
    }
    Some(c)
}

} // verus!
