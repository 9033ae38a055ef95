//! Round-trip laws of the JSON codec: serializing a well-formed record and
//! parsing the result gives back exactly the original record.
//!
//! Well-formedness asks only what the codec itself is bounded by: string
//! fields hold plain characters (no quote, backslash or control character),
//! and integer fields have magnitude at most `i64::MAX`.

use vstd::prelude::*;

use crate::json::{
    is_digit_char, is_plain_str_char, is_ws_char, lemma_scan_digits_end, lemma_scan_plain_end, pow10,
    seq_num_val, spec_parse_int, spec_parse_string, spec_parse_uint, spec_skip_ws,
};
use crate::parse::{
    spec_astros_members, spec_iss_now_members, spec_parse_astros, spec_parse_astros_doc,
    spec_parse_iss_now, spec_parse_iss_now_doc, spec_parse_pass, spec_parse_pass_times,
    spec_parse_pass_times_doc, spec_parse_passes, spec_parse_people, spec_parse_person,
    spec_parse_position, spec_pass_items, spec_pass_members, spec_pass_times_members,
    spec_people_items, spec_person_members, spec_position_members,
};
use crate::ser::{
    digit_char, spec_ser_astros, spec_ser_int, spec_ser_iss_now, spec_ser_nat, spec_ser_pass,
    spec_ser_pass_items, spec_ser_pass_times, spec_ser_people_items, spec_ser_person,
    spec_ser_position,
};
use crate::{AstrosView, IssNowView, IssPassTimeView, IssPassTimesView, PersonView};

verus! {

/// Every character of the sequence may stand raw inside a JSON string.
pub open spec fn plain_seq(s: Seq<char>) -> bool {
    forall|k: int| 0 <= k < s.len() ==> is_plain_str_char(s[k])
}

/// A person whose fields the codec round-trips.
pub open spec fn person_wf(p: PersonView) -> bool {
    plain_seq(p.name) && plain_seq(p.craft)
}

// ------------------------------------------------------------------
// Primitive round trips: string and integer literals
// ------------------------------------------------------------------

/// A quoted plain content at `i` parses back to exactly that content.
pub proof fn lemma_parse_string_at(s: Seq<char>, i: int, content: Seq<char>)
    requires
        plain_seq(content),
        0 <= i,
        i + content.len() + 2 <= s.len(),
        s[i] == '"',
        s[i + content.len() + 1] == '"',
        forall|k: int| 0 <= k < content.len() ==> s[i + 1 + k] == content[k],
    ensures
        spec_parse_string(s, i) == Some((content, i + content.len() + 2)),
{
    let j = i + 1 + content.len();
    assert forall|k: int| i + 1 <= k < j implies is_plain_str_char(s[k]) by {
        assert(s[i + 1 + (k - i - 1)] == content[k - i - 1]);
    }
    assert(!is_plain_str_char('"'));
    lemma_scan_plain_end(s, i + 1, j);
    assert(s.subrange(i + 1, j) =~= content);
}

// ------------------------------------------------------------------
// Decimal digits
// ------------------------------------------------------------------

pub proof fn lemma_ser_nat_digits(v: int)
    requires
        v >= 0,
    ensures
        spec_ser_nat(v).len() >= 1,
        forall|k: int| 0 <= k < spec_ser_nat(v).len() ==> is_digit_char(#[trigger] spec_ser_nat(v)[k]),
        seq_num_val(spec_ser_nat(v)) == v,
    decreases v,
{
    if v <= 9 {
        assert(is_digit_char(digit_char(v)));
        assert(seq_num_val(spec_ser_nat(v)) == seq_num_val(Seq::<char>::empty()) * 10
            + crate::json::digit_val(digit_char(v))) by {
            assert(spec_ser_nat(v).drop_last() =~= Seq::<char>::empty());
        }
    } else {
        lemma_ser_nat_digits(v / 10);
        let a = spec_ser_nat(v / 10);
        let c = digit_char(v % 10);
        assert(is_digit_char(c));
        assert(spec_ser_nat(v) == a + seq![c]);
        assert((a + seq![c]).drop_last() =~= a);
        assert((a + seq![c]).last() == c);
        assert(seq_num_val(a + seq![c]) == v) by {
            assert(seq_num_val(a + seq![c]) == seq_num_val(a) * 10 + crate::json::digit_val(c));
            assert(crate::json::digit_val(c) == v % 10);
            assert((v / 10) * 10 + v % 10 == v) by (nonlinear_arith);
        }
        assert forall|k: int| 0 <= k < spec_ser_nat(v).len() implies is_digit_char(
            #[trigger] spec_ser_nat(v)[k],
        ) by {
            if k < a.len() {
                assert(spec_ser_nat(v)[k] == a[k]);
            } else {
                assert(spec_ser_nat(v)[k] == c);
            }
        }
    }
}

pub proof fn lemma_ser_nat_len_le(v: int, k: nat)
    requires
        k >= 1,
        0 <= v < pow10(k),
    ensures
        spec_ser_nat(v).len() <= k,
    decreases v,
{
    if v <= 9 {
    } else {
        assert(pow10(k) == 10 * pow10((k - 1) as nat));
        assert(v / 10 < pow10((k - 1) as nat)) by (nonlinear_arith)
            requires
                v < 10 * pow10((k - 1) as nat),
                v >= 10,
        ;
        assert(k - 1 >= 1) by {
            crate::json::lemma_pow10_le(1nat, (k - 1) as nat);
            if k == 1 {
                assert(pow10(1nat) == 10);
                assert(v / 10 < pow10(0nat));
                assert(pow10(0nat) == 1);
            }
        }
        lemma_ser_nat_len_le(v / 10, (k - 1) as nat);
    }
}

/// The serialized digits of `v` at `i`, followed by a non-digit (or the
/// end), parse back to exactly `v`.
pub proof fn lemma_parse_uint_at(s: Seq<char>, i: int, v: int)
    requires
        0 <= v <= i64::MAX,
        0 <= i,
        i + spec_ser_nat(v).len() <= s.len(),
        forall|k: int| 0 <= k < spec_ser_nat(v).len() ==> s[i + k] == spec_ser_nat(v)[k],
        i + spec_ser_nat(v).len() == s.len() || !is_digit_char(s[i + spec_ser_nat(v).len()]),
    ensures
        spec_parse_uint(s, i) == Some((v, i + spec_ser_nat(v).len())),
{
    let ds = spec_ser_nat(v);
    let j = i + ds.len();
    lemma_ser_nat_digits(v);
    assert forall|k: int| i <= k < j implies is_digit_char(s[k]) by {
        assert(s[i + (k - i)] == ds[k - i]);
    }
    assert(s[i + 0] == ds[0]);
    lemma_scan_digits_end(s, i, j);
    assert(pow10(19) == 10_000_000_000_000_000_000) by {
        reveal_with_fuel(pow10, 20);
    }
    lemma_ser_nat_len_le(v, 19);
    assert(s.subrange(i, j) =~= ds);
}

/// The serialized decimal form of `v` at `i`, followed by a non-digit (or
/// the end), parses back to exactly `v`.
pub proof fn lemma_parse_int_at(s: Seq<char>, i: int, v: int)
    requires
        -i64::MAX <= v <= i64::MAX,
        0 <= i,
        i + spec_ser_int(v).len() <= s.len(),
        forall|k: int| 0 <= k < spec_ser_int(v).len() ==> s[i + k] == spec_ser_int(v)[k],
        i + spec_ser_int(v).len() == s.len() || !is_digit_char(s[i + spec_ser_int(v).len()]),
    ensures
        spec_parse_int(s, i) == Some((v, i + spec_ser_int(v).len())),
{
    if v >= 0 {
        lemma_ser_nat_digits(v);
        assert(s[i + 0] == spec_ser_nat(v)[0]);
        assert(s[i] != '-');
        lemma_parse_uint_at(s, i, v);
    } else {
        let m = -v;
        let ds = spec_ser_nat(m);
        assert(spec_ser_int(v) == seq!['-'] + ds);
        assert(s[i + 0] == spec_ser_int(v)[0]);
        assert(s[i] == '-');
        assert forall|k: int| 0 <= k < ds.len() implies s[i + 1 + k] == ds[k] by {
            assert(s[i + (1 + k)] == spec_ser_int(v)[1 + k]);
            assert(spec_ser_int(v)[1 + k] == ds[k]);
        }
        lemma_parse_uint_at(s, i + 1, m);
        assert(spec_parse_uint(s, i + 1) == Some((m, i + 1 + ds.len())));
    }
}

// ------------------------------------------------------------------
// Person round trip
// ------------------------------------------------------------------

/// The serialized form of a well-formed person, standing at `i`, parses
/// back to exactly that person.
#[verifier::rlimit(100)]
pub proof fn lemma_parse_person_at(s: Seq<char>, i: int, p: PersonView)
    requires
        person_wf(p),
        0 <= i,
        i + spec_ser_person(p).len() <= s.len(),
        forall|k: int| 0 <= k < spec_ser_person(p).len() ==> s[i + k] == spec_ser_person(p)[k],
    ensures
        spec_parse_person(s, i) == Some((p, i + spec_ser_person(p).len())),
{
    reveal_strlit("{\"name\":\"");
    reveal_strlit("\",\"craft\":\"");
    reveal_strlit("\"}");
    reveal_strlit("name");
    reveal_strlit("craft");
    let a = "{\"name\":\""@;
    let b = "\",\"craft\":\""@;
    let c = "\"}"@;
    let t = spec_ser_person(p);
    let n1 = p.name.len() as int;
    let n2 = p.craft.len() as int;
    assert(a.len() == 9);
    assert(b.len() == 11);
    assert(c.len() == 2);
    assert(t.len() == 22 + n1 + n2);
    assert forall|x: int| i <= x < i + t.len() implies #[trigger] s[x] == t[x - i] by {
        assert(s[i + (x - i)] == t[x - i]);
    }

    // The opening brace and the first key.
    assert(t[0] == a[0]);
    assert(s[i] == '{');
    assert(s[i + 1] == '"');
    assert(spec_skip_ws(s, i + 1) == i + 1);
    assert forall|k: int| 0 <= k < 4 implies s[i + 2 + k] == ("name"@)[k] by {
        assert(s[i + 2 + k] == t[2 + k]);
        assert(t[2 + k] == a[2 + k]);
    }
    assert(s[i + 6] == '"');
    assert(plain_seq("name"@));
    lemma_parse_string_at(s, i + 1, "name"@);
    assert(spec_parse_string(s, i + 1) == Some(("name"@, i + 7)));
    assert(s[i + 7] == ':');
    assert(spec_skip_ws(s, i + 7) == i + 7);
    assert(spec_skip_ws(s, i + 8) == i + 8);

    // The name value.
    assert(s[i + 8] == '"');
    assert forall|k: int| 0 <= k < n1 implies s[i + 9 + k] == p.name[k] by {
        assert(s[i + 9 + k] == t[9 + k]);
    }
    assert(s[i + 9 + n1] == b[0]);
    assert(s[i + 9 + n1] == '"');
    lemma_parse_string_at(s, i + 8, p.name);
    assert(spec_parse_string(s, i + 8) == Some((p.name, i + 10 + n1)));

    // The comma, then the second key.
    assert(s[i + 10 + n1] == b[1]);
    assert(s[i + 10 + n1] == ',');
    assert(spec_skip_ws(s, i + 10 + n1) == i + 10 + n1);
    assert(s[i + 11 + n1] == b[2]);
    assert(s[i + 11 + n1] == '"');
    assert(spec_skip_ws(s, i + 11 + n1) == i + 11 + n1);
    assert forall|k: int| 0 <= k < 5 implies s[i + 12 + n1 + k] == ("craft"@)[k] by {
        assert(s[i + 12 + n1 + k] == t[12 + n1 + k]);
        assert(t[12 + n1 + k] == b[3 + k]);
    }
    assert(s[i + 17 + n1] == b[8]);
    assert(s[i + 17 + n1] == '"');
    assert(plain_seq("craft"@));
    lemma_parse_string_at(s, i + 11 + n1, "craft"@);
    assert(spec_parse_string(s, i + 11 + n1) == Some(("craft"@, i + 18 + n1)));
    assert(s[i + 18 + n1] == b[9]);
    assert(s[i + 18 + n1] == ':');
    assert(spec_skip_ws(s, i + 18 + n1) == i + 18 + n1);
    assert(spec_skip_ws(s, i + 19 + n1) == i + 19 + n1);

    // The craft value.
    assert(s[i + 19 + n1] == b[10]);
    assert(s[i + 19 + n1] == '"');
    assert forall|k: int| 0 <= k < n2 implies s[i + 20 + n1 + k] == p.craft[k] by {
        assert(s[i + 20 + n1 + k] == t[20 + n1 + k]);
    }
    assert(s[i + 20 + n1 + n2] == c[0]);
    assert(s[i + 20 + n1 + n2] == '"');
    lemma_parse_string_at(s, i + 19 + n1, p.craft);
    assert(spec_parse_string(s, i + 19 + n1) == Some((p.craft, i + 21 + n1 + n2)));

    // The closing brace.
    assert(s[i + 21 + n1 + n2] == c[1]);
    assert(s[i + 21 + n1 + n2] == '}');
    assert(spec_skip_ws(s, i + 21 + n1 + n2) == i + 21 + n1 + n2);

    // The keys differ, so the second member fills the craft field.
    assert("craft"@ != "name"@);
    assert(spec_person_members(s, i + 11 + n1, Some(p.name), None) == Some(
        (p, i + 22 + n1 + n2),
    ));
    assert(spec_person_members(s, i + 1, None, None) == Some((p, i + 22 + n1 + n2)));
}

/// Serializing a well-formed person and parsing the result gives back
/// exactly that person.
pub proof fn theorem_person_round_trip(p: PersonView)
    requires
        person_wf(p),
    ensures
        spec_parse_person(spec_ser_person(p), 0) == Some(
            (p, spec_ser_person(p).len() as int),
        ),
{
    let t = spec_ser_person(p);
    assert forall|k: int| 0 <= k < t.len() implies #[trigger] t[0 + k] == t[k] by {
        assert(0 + k == k);
    }
    lemma_parse_person_at(t, 0, p);
}

// ------------------------------------------------------------------
// Arrays of person objects
// ------------------------------------------------------------------

/// All people in the sequence are well formed.
pub open spec fn people_wf(ps: Seq<PersonView>) -> bool {
    forall|k: int| 0 <= k < ps.len() ==> person_wf(#[trigger] ps[k])
}

/// The serialized form of a person starts with the opening brace.
pub proof fn lemma_ser_person_first(p: PersonView)
    ensures
        spec_ser_person(p).len() >= 9,
        spec_ser_person(p)[0] == '{',
{
    reveal_strlit("{\"name\":\"");
}

/// The serialized items of a non-empty people list start with a brace.
pub proof fn lemma_ser_people_items_first(ps: Seq<PersonView>)
    requires
        ps.len() >= 1,
    ensures
        spec_ser_people_items(ps).len() >= 9,
        spec_ser_people_items(ps)[0] == '{',
{
    lemma_ser_person_first(ps[0]);
}

/// The serialized items of a non-empty people list at `i`, followed by the
/// closing bracket, parse back to the accumulator extended by that list.
pub proof fn lemma_people_items_at(s: Seq<char>, i: int, ps: Seq<PersonView>, acc: Seq<PersonView>)
    requires
        ps.len() >= 1,
        people_wf(ps),
        0 <= i,
        i + spec_ser_people_items(ps).len() + 1 <= s.len(),
        forall|k: int|
            0 <= k < spec_ser_people_items(ps).len() ==> s[i + k] == spec_ser_people_items(ps)[k],
        s[i + spec_ser_people_items(ps).len()] == ']',
    ensures
        spec_people_items(s, i, acc) == Some(
            (acc + ps, i + spec_ser_people_items(ps).len() + 1),
        ),
    decreases ps.len(),
{
    let t = spec_ser_people_items(ps);
    assert forall|x: int| i <= x < i + t.len() implies #[trigger] s[x] == t[x - i] by {
        assert(s[i + (x - i)] == t[x - i]);
    }
    let p0 = ps[0];
    let t0 = spec_ser_person(p0);
    if ps.len() == 1 {
        assert(t == t0);
        lemma_parse_person_at(s, i, p0);
        assert(s[i + t0.len()] == ']');
        assert(spec_skip_ws(s, i + t0.len()) == i + t0.len());
        assert(acc.push(p0) =~= acc + ps);
    } else {
        let rest = ps.drop_first();
        let tr = spec_ser_people_items(rest);
        assert(t == t0 + seq![','] + tr);
        assert forall|k: int| 0 <= k < t0.len() implies s[i + k] == t0[k] by {
            assert(t[k] == t0[k]);
        }
        lemma_parse_person_at(s, i, p0);
        let j = i + t0.len();
        assert(s[j] == ',') by {
            assert(t[t0.len() as int] == ',');
        }
        assert(spec_skip_ws(s, j) == j);
        let m = j + 1;
        assert forall|k: int| 0 <= k < tr.len() implies s[m + k] == tr[k] by {
            assert(s[i + (t0.len() + 1 + k)] == t[t0.len() + 1 + k]);
            assert(t[t0.len() + 1 + k] == tr[k]);
        }
        assert(s[m + tr.len()] == ']') by {
            assert(t.len() == t0.len() + 1 + tr.len());
        }
        lemma_ser_people_items_first(rest);
        assert(spec_skip_ws(s, m) == m) by {
            assert(s[m + 0] == tr[0]);
            assert(tr[0] == '{');
        }
        assert(people_wf(rest));
        lemma_people_items_at(s, m, rest, acc.push(p0));
        assert(acc.push(p0) + rest =~= acc + ps);
        assert(spec_people_items(s, i, acc) == Some((acc + ps, m + tr.len() + 1)));
    }
}

/// A serialized people array (brackets included) at `i` parses back to
/// exactly the original list.
pub proof fn lemma_parse_people_at(s: Seq<char>, i: int, ps: Seq<PersonView>)
    requires
        people_wf(ps),
        0 <= i,
        i + spec_ser_people_items(ps).len() + 2 <= s.len(),
        s[i] == '[',
        forall|k: int|
            0 <= k < spec_ser_people_items(ps).len() ==> s[i + 1 + k] == spec_ser_people_items(
                ps,
            )[k],
        s[i + 1 + spec_ser_people_items(ps).len()] == ']',
    ensures
        spec_parse_people(s, i) == Some((ps, i + spec_ser_people_items(ps).len() + 2)),
{
    let t = spec_ser_people_items(ps);
    if ps.len() == 0 {
        assert(t.len() == 0);
        assert(s[i + 1 + 0] == ']');
        assert(spec_skip_ws(s, i + 1) == i + 1);
        assert(ps =~= Seq::<PersonView>::empty());
    } else {
        lemma_ser_people_items_first(ps);
        assert(s[i + 1 + 0] == t[0]);
        assert(spec_skip_ws(s, i + 1) == i + 1);
        lemma_people_items_at(s, i + 1, ps, Seq::empty());
        assert(Seq::<PersonView>::empty() + ps =~= ps);
    }
}

// ------------------------------------------------------------------
// Astros round trip
// ------------------------------------------------------------------

/// A manifest whose fields the codec round-trips: plain strings, the count
/// within `i32`, and well-formed people.
pub open spec fn astros_wf(a: AstrosView) -> bool {
    plain_seq(a.message) && -2147483648 <= a.number <= 2147483647 && people_wf(a.people)
}

/// The third member of a serialized manifest (`people`), with `message`
/// and `number` already read, finishes the object.
#[verifier::rlimit(100)]
proof fn lemma_astros_member3(s: Seq<char>, i: int, a: AstrosView)
    requires
        astros_wf(a),
        0 <= i,
        i + spec_ser_astros(a).len() <= s.len(),
        forall|k: int| 0 <= k < spec_ser_astros(a).len() ==> s[i + k] == spec_ser_astros(a)[k],
    ensures
        spec_astros_members(
            s,
            i + 24 + a.message.len() + spec_ser_int(a.number).len(),
            Some(a.message),
            Some(a.number),
            None,
        ) == Some((a, i + spec_ser_astros(a).len())),
{
    reveal_strlit("{\"message\":\"");
    reveal_strlit("\",\"number\":");
    reveal_strlit(",\"people\":[");
    reveal_strlit("]}");
    reveal_strlit("message");
    reveal_strlit("number");
    reveal_strlit("people");
    let a0 = "{\"message\":\""@;
    let b0 = "\",\"number\":"@;
    let c0 = ",\"people\":["@;
    let d0 = "]}"@;
    let t = spec_ser_astros(a);
    let m = a.message.len() as int;
    let nn = spec_ser_int(a.number);
    let ll = nn.len() as int;
    let it = spec_ser_people_items(a.people);
    let pp = it.len() as int;
    assert(a0.len() == 12);
    assert(b0.len() == 11);
    assert(c0.len() == 11);
    assert(d0.len() == 2);
    assert(t.len() == 36 + m + ll + pp);
    assert forall|x: int| i <= x < i + t.len() implies #[trigger] s[x] == t[x - i] by {
        assert(s[i + (x - i)] == t[x - i]);
    }
    let i3 = i + 24 + m + ll;

    // The key.
    assert(s[i3] == '"') by {
        assert(t[24 + m + ll] == c0[1]);
    }
    assert forall|k: int| 0 <= k < 6 implies s[i3 + 1 + k] == ("people"@)[k] by {
        assert(t[25 + m + ll + k] == c0[2 + k]);
        assert(s[i3 + 1 + k] == t[25 + m + ll + k]);
    }
    assert(s[i3 + 7] == '"') by {
        assert(t[31 + m + ll] == c0[8]);
    }
    assert(plain_seq("people"@));
    lemma_parse_string_at(s, i3, "people"@);
    assert(s[i3 + 8] == ':') by {
        assert(t[32 + m + ll] == c0[9]);
    }
    assert(spec_skip_ws(s, i3 + 8) == i3 + 8);
    assert(spec_skip_ws(s, i3 + 9) == i3 + 9) by {
        assert(t[33 + m + ll] == c0[10]);
    }

    // The key is `people`, not `message` or `number`.
    assert("people"@ != "message"@);
    assert(("people"@)[0] != ("number"@)[0]);
    assert("people"@ != "number"@);

    // The people array.
    let karr = i3 + 9;
    assert(s[karr] == '[') by {
        assert(t[33 + m + ll] == c0[10]);
    }
    assert forall|k: int| 0 <= k < pp implies s[karr + 1 + k] == it[k] by {
        assert(s[i + (34 + m + ll + k)] == t[34 + m + ll + k]);
        assert(t[34 + m + ll + k] == it[k]);
    }
    assert(s[karr + 1 + pp] == ']') by {
        assert(t[34 + m + ll + pp] == d0[0]);
    }
    lemma_parse_people_at(s, karr, a.people);
    assert(spec_parse_people(s, karr) == Some((a.people, karr + pp + 2)));

    // The closing brace.
    let e = karr + pp + 2;
    assert(s[e] == '}') by {
        assert(t[35 + m + ll + pp] == d0[1]);
    }
    assert(spec_skip_ws(s, e) == e);
    assert(spec_astros_members(s, i3, Some(a.message), Some(a.number), None) == Some(
        (a, e + 1),
    ));
}

/// The second member of a serialized manifest (`number`), with `message`
/// already read.
#[verifier::rlimit(100)]
proof fn lemma_astros_member2(s: Seq<char>, i: int, a: AstrosView)
    requires
        astros_wf(a),
        0 <= i,
        i + spec_ser_astros(a).len() <= s.len(),
        forall|k: int| 0 <= k < spec_ser_astros(a).len() ==> s[i + k] == spec_ser_astros(a)[k],
    ensures
        spec_astros_members(s, i + 14 + a.message.len(), Some(a.message), None, None) == Some(
            (a, i + spec_ser_astros(a).len()),
        ),
{
    reveal_strlit("{\"message\":\"");
    reveal_strlit("\",\"number\":");
    reveal_strlit(",\"people\":[");
    reveal_strlit("]}");
    reveal_strlit("message");
    reveal_strlit("number");
    let a0 = "{\"message\":\""@;
    let b0 = "\",\"number\":"@;
    let c0 = ",\"people\":["@;
    let d0 = "]}"@;
    let t = spec_ser_astros(a);
    let m = a.message.len() as int;
    let nn = spec_ser_int(a.number);
    let ll = nn.len() as int;
    assert(a0.len() == 12);
    assert(b0.len() == 11);
    assert(c0.len() == 11);
    assert(d0.len() == 2);
    assert forall|x: int| i <= x < i + t.len() implies #[trigger] s[x] == t[x - i] by {
        assert(s[i + (x - i)] == t[x - i]);
    }
    let i2 = i + 14 + m;

    // The key.
    assert(s[i2] == '"') by {
        assert(t[14 + m] == b0[2]);
    }
    assert forall|k: int| 0 <= k < 6 implies s[i2 + 1 + k] == ("number"@)[k] by {
        assert(t[15 + m + k] == b0[3 + k]);
        assert(s[i2 + 1 + k] == t[15 + m + k]);
    }
    assert(s[i2 + 7] == '"') by {
        assert(t[21 + m] == b0[9]);
    }
    assert(plain_seq("number"@));
    lemma_parse_string_at(s, i2, "number"@);
    assert(s[i2 + 8] == ':') by {
        assert(t[22 + m] == b0[10]);
    }
    assert(spec_skip_ws(s, i2 + 8) == i2 + 8);

    // The key is `number`, not `message`.
    assert("number"@ != "message"@);

    // The integer value.
    let kn = i2 + 9;
    lemma_ser_nat_digits(if a.number < 0 {
        -a.number
    } else {
        a.number
    });
    assert forall|k: int| 0 <= k < ll implies s[kn + k] == nn[k] by {
        assert(s[i + (23 + m + k)] == t[23 + m + k]);
        assert(t[23 + m + k] == nn[k]);
    }
    assert(s[kn + 0] == nn[0]);
    assert(!is_ws_char(nn[0])) by {
        if a.number < 0 {
            assert(nn[0] == '-');
        } else {
            assert(is_digit_char(nn[0]));
        }
    }
    assert(spec_skip_ws(s, kn) == kn);
    assert(s[kn + ll] == ',') by {
        assert(t[23 + m + ll] == c0[0]);
    }
    assert(!is_digit_char(','));
    lemma_parse_int_at(s, kn, a.number);
    assert(spec_parse_int(s, kn) == Some((a.number, kn + ll)));

    // On to the third member.
    assert(spec_skip_ws(s, kn + ll) == kn + ll);
    assert(s[kn + ll + 1] == '"') by {
        assert(t[24 + m + ll] == c0[1]);
    }
    assert(spec_skip_ws(s, kn + ll + 1) == kn + ll + 1);
    lemma_astros_member3(s, i, a);
    assert(spec_astros_members(s, i2, Some(a.message), None, None) == Some(
        (a, i + t.len()),
    ));
}

/// Serializing a well-formed manifest and parsing the result as a whole
/// document gives back exactly that manifest.
#[verifier::rlimit(100)]
pub proof fn theorem_astros_round_trip(a: AstrosView)
    requires
        astros_wf(a),
    ensures
        spec_parse_astros_doc(spec_ser_astros(a)) == Some(a),
{
    reveal_strlit("{\"message\":\"");
    reveal_strlit("\",\"number\":");
    reveal_strlit("message");
    let a0 = "{\"message\":\""@;
    let b0 = "\",\"number\":"@;
    let t = spec_ser_astros(a);
    let s = t;
    let m = a.message.len() as int;
    assert(a0.len() == 12);
    assert(b0.len() == 11);
    assert forall|x: int| 0 <= x < t.len() implies #[trigger] s[x] == t[x - 0] by {
        assert(x - 0 == x);
    }

    // The document starts at the brace.
    assert(s[0] == '{') by {
        assert(t[0] == a0[0]);
    }
    assert(spec_skip_ws(s, 0) == 0);
    assert(s[1] == '"') by {
        assert(t[1] == a0[1]);
    }
    assert(spec_skip_ws(s, 1) == 1);

    // The first member: the message.
    assert forall|k: int| 0 <= k < 7 implies s[1 + 1 + k] == ("message"@)[k] by {
        assert(t[2 + k] == a0[2 + k]);
        assert(s[1 + 1 + k] == t[2 + k]);
    }
    assert(s[9] == '"') by {
        assert(t[9] == a0[9]);
    }
    assert(plain_seq("message"@));
    lemma_parse_string_at(s, 1, "message"@);
    assert(s[10] == ':') by {
        assert(t[10] == a0[10]);
    }
    assert(spec_skip_ws(s, 10) == 10);
    assert(s[11] == '"') by {
        assert(t[11] == a0[11]);
    }
    assert(spec_skip_ws(s, 11) == 11);
    assert forall|k: int| 0 <= k < m implies s[11 + 1 + k] == a.message[k] by {
        assert(s[12 + k] == t[12 + k]);
        assert(t[12 + k] == a.message[k]);
    }
    assert(s[12 + m] == '"') by {
        assert(t[12 + m] == b0[0]);
    }
    lemma_parse_string_at(s, 11, a.message);
    assert(spec_parse_string(s, 11) == Some((a.message, 13 + m)));

    // The comma, then the rest by the member lemmas.
    assert(s[13 + m] == ',') by {
        assert(t[13 + m] == b0[1]);
    }
    assert(spec_skip_ws(s, 13 + m) == 13 + m);
    assert(s[14 + m] == '"') by {
        assert(t[14 + m] == b0[2]);
    }
    assert(spec_skip_ws(s, 14 + m) == 14 + m);
    lemma_astros_member2(s, 0, a);
    assert(spec_astros_members(s, 1, None, None, None) == Some((a, t.len() as int)));
    assert(spec_parse_astros(s, 0) == Some((a, t.len() as int)));
    assert(spec_skip_ws(s, t.len() as int) == t.len() as int);
}

// ------------------------------------------------------------------
// ISS position round trip
// ------------------------------------------------------------------

/// A position report whose fields the codec round-trips.
pub open spec fn iss_now_wf(v: IssNowView) -> bool {
    plain_seq(v.message) && plain_seq(v.latitude) && plain_seq(v.longitude) && -i64::MAX
        <= v.timestamp <= i64::MAX
}

/// The serialized inner `iss_position` object at `i` parses back to exactly
/// the two coordinate strings.
#[verifier::rlimit(100)]
proof fn lemma_parse_position_at(s: Seq<char>, i: int, lat: Seq<char>, lon: Seq<char>)
    requires
        plain_seq(lat),
        plain_seq(lon),
        0 <= i,
        i + spec_ser_position(lat, lon).len() <= s.len(),
        forall|k: int|
            0 <= k < spec_ser_position(lat, lon).len() ==> s[i + k] == spec_ser_position(
                lat,
                lon,
            )[k],
    ensures
        spec_parse_position(s, i) == Some(
            ((lat, lon), i + spec_ser_position(lat, lon).len()),
        ),
{
    reveal_strlit("{\"latitude\":\"");
    reveal_strlit("\",\"longitude\":\"");
    reveal_strlit("\"}");
    reveal_strlit("latitude");
    reveal_strlit("longitude");
    let a = "{\"latitude\":\""@;
    let b = "\",\"longitude\":\""@;
    let c = "\"}"@;
    let t = spec_ser_position(lat, lon);
    let la = lat.len() as int;
    let lo = lon.len() as int;
    assert(a.len() == 13);
    assert(b.len() == 15);
    assert(c.len() == 2);
    assert(t.len() == 30 + la + lo);
    assert forall|x: int| i <= x < i + t.len() implies #[trigger] s[x] == t[x - i] by {
        assert(s[i + (x - i)] == t[x - i]);
    }

    // The opening brace and the first key.
    assert(t[0] == a[0]);
    assert(s[i] == '{');
    assert(s[i + 1] == '"');
    assert(spec_skip_ws(s, i + 1) == i + 1);
    assert forall|k: int| 0 <= k < 8 implies s[i + 2 + k] == ("latitude"@)[k] by {
        assert(s[i + 2 + k] == t[2 + k]);
        assert(t[2 + k] == a[2 + k]);
    }
    assert(s[i + 10] == '"');
    assert(plain_seq("latitude"@));
    lemma_parse_string_at(s, i + 1, "latitude"@);
    assert(s[i + 11] == ':');
    assert(spec_skip_ws(s, i + 11) == i + 11);
    assert(spec_skip_ws(s, i + 12) == i + 12);

    // The latitude value.
    assert(s[i + 12] == '"');
    assert forall|k: int| 0 <= k < la implies s[i + 13 + k] == lat[k] by {
        assert(s[i + 13 + k] == t[13 + k]);
    }
    assert(s[i + 13 + la] == b[0]);
    assert(s[i + 13 + la] == '"');
    lemma_parse_string_at(s, i + 12, lat);
    assert(spec_parse_string(s, i + 12) == Some((lat, i + 14 + la)));

    // The comma, then the second key.
    assert(s[i + 14 + la] == b[1]);
    assert(s[i + 14 + la] == ',');
    assert(spec_skip_ws(s, i + 14 + la) == i + 14 + la);
    assert(s[i + 15 + la] == b[2]);
    assert(s[i + 15 + la] == '"');
    assert(spec_skip_ws(s, i + 15 + la) == i + 15 + la);
    assert forall|k: int| 0 <= k < 9 implies s[i + 16 + la + k] == ("longitude"@)[k] by {
        assert(s[i + 16 + la + k] == t[16 + la + k]);
        assert(t[16 + la + k] == b[3 + k]);
    }
    assert(s[i + 25 + la] == b[12]);
    assert(s[i + 25 + la] == '"');
    assert(plain_seq("longitude"@));
    lemma_parse_string_at(s, i + 15 + la, "longitude"@);
    assert(s[i + 26 + la] == b[13]);
    assert(s[i + 26 + la] == ':');
    assert(spec_skip_ws(s, i + 26 + la) == i + 26 + la);
    assert(spec_skip_ws(s, i + 27 + la) == i + 27 + la);

    // The longitude value.
    assert(s[i + 27 + la] == b[14]);
    assert(s[i + 27 + la] == '"');
    assert forall|k: int| 0 <= k < lo implies s[i + 28 + la + k] == lon[k] by {
        assert(s[i + 28 + la + k] == t[28 + la + k]);
    }
    assert(s[i + 28 + la + lo] == c[0]);
    assert(s[i + 28 + la + lo] == '"');
    lemma_parse_string_at(s, i + 27 + la, lon);
    assert(spec_parse_string(s, i + 27 + la) == Some((lon, i + 29 + la + lo)));

    // The closing brace.
    assert(s[i + 29 + la + lo] == c[1]);
    assert(s[i + 29 + la + lo] == '}');
    assert(spec_skip_ws(s, i + 29 + la + lo) == i + 29 + la + lo);

    // The keys differ, so the second member fills the longitude field.
    assert("longitude"@ != "latitude"@);
    assert(spec_position_members(s, i + 15 + la, Some(lat), None) == Some(
        ((lat, lon), i + 30 + la + lo),
    ));
    assert(spec_position_members(s, i + 1, None, None) == Some(
        ((lat, lon), i + 30 + la + lo),
    ));
}

/// The third member of a serialized position report (`iss_position`), with
/// `message` and `timestamp` already read, finishes the object.
#[verifier::rlimit(100)]
proof fn lemma_iss_now_member3(s: Seq<char>, i: int, v: IssNowView)
    requires
        iss_now_wf(v),
        0 <= i,
        i + spec_ser_iss_now(v).len() <= s.len(),
        forall|k: int| 0 <= k < spec_ser_iss_now(v).len() ==> s[i + k] == spec_ser_iss_now(v)[k],
    ensures
        spec_iss_now_members(
            s,
            i + 27 + v.message.len() + spec_ser_int(v.timestamp).len(),
            Some(v.message),
            Some(v.timestamp),
            None,
        ) == Some((v, i + spec_ser_iss_now(v).len())),
{
    reveal_strlit("{\"message\":\"");
    reveal_strlit("\",\"timestamp\":");
    reveal_strlit(",\"iss_position\":");
    reveal_strlit("}");
    reveal_strlit("{\"latitude\":\"");
    reveal_strlit("message");
    reveal_strlit("timestamp");
    reveal_strlit("iss_position");
    let c0 = ",\"iss_position\":"@;
    let f0 = "}"@;
    let t = spec_ser_iss_now(v);
    let m = v.message.len() as int;
    let ll = spec_ser_int(v.timestamp).len() as int;
    let tp = spec_ser_position(v.latitude, v.longitude);
    let tpl = tp.len() as int;
    assert(c0.len() == 16);
    assert(f0.len() == 1);
    assert(t.len() == 43 + m + ll + tpl);
    assert forall|x: int| i <= x < i + t.len() implies #[trigger] s[x] == t[x - i] by {
        assert(s[i + (x - i)] == t[x - i]);
    }
    let i3 = i + 27 + m + ll;

    // The key.
    assert(s[i3] == '"') by {
        assert(t[27 + m + ll] == c0[1]);
    }
    assert forall|k: int| 0 <= k < 12 implies s[i3 + 1 + k] == ("iss_position"@)[k] by {
        assert(t[28 + m + ll + k] == c0[2 + k]);
        assert(s[i3 + 1 + k] == t[28 + m + ll + k]);
    }
    assert(s[i3 + 13] == '"') by {
        assert(t[40 + m + ll] == c0[14]);
    }
    assert(plain_seq("iss_position"@));
    lemma_parse_string_at(s, i3, "iss_position"@);
    assert(s[i3 + 14] == ':') by {
        assert(t[41 + m + ll] == c0[15]);
    }
    assert(spec_skip_ws(s, i3 + 14) == i3 + 14);

    // The key is `iss_position`, not `message` or `timestamp`.
    assert("iss_position"@ != "message"@);
    assert("iss_position"@ != "timestamp"@);

    // The inner position object.
    let kp = i3 + 15;
    assert forall|k: int| 0 <= k < tpl implies s[kp + k] == tp[k] by {
        assert(s[i + (42 + m + ll + k)] == t[42 + m + ll + k]);
        assert(t[42 + m + ll + k] == tp[k]);
    }
    assert(s[kp + 0] == tp[0]);
    assert(tp[0] == '{');
    assert(spec_skip_ws(s, kp) == kp);
    lemma_parse_position_at(s, kp, v.latitude, v.longitude);
    assert(spec_parse_position(s, kp) == Some(((v.latitude, v.longitude), kp + tpl)));

    // The closing brace.
    let e = kp + tpl;
    assert(s[e] == '}') by {
        assert(t[42 + m + ll + tpl] == f0[0]);
    }
    assert(spec_skip_ws(s, e) == e);
    assert(spec_iss_now_members(s, i3, Some(v.message), Some(v.timestamp), None) == Some(
        (v, e + 1),
    ));
}

/// The second member of a serialized position report (`timestamp`), with
/// `message` already read.
#[verifier::rlimit(100)]
proof fn lemma_iss_now_member2(s: Seq<char>, i: int, v: IssNowView)
    requires
        iss_now_wf(v),
        0 <= i,
        i + spec_ser_iss_now(v).len() <= s.len(),
        forall|k: int| 0 <= k < spec_ser_iss_now(v).len() ==> s[i + k] == spec_ser_iss_now(v)[k],
    ensures
        spec_iss_now_members(s, i + 14 + v.message.len(), Some(v.message), None, None) == Some(
            (v, i + spec_ser_iss_now(v).len()),
        ),
{
    reveal_strlit("{\"message\":\"");
    reveal_strlit("\",\"timestamp\":");
    reveal_strlit(",\"iss_position\":");
    reveal_strlit("message");
    reveal_strlit("timestamp");
    let b0 = "\",\"timestamp\":"@;
    let c0 = ",\"iss_position\":"@;
    let t = spec_ser_iss_now(v);
    let m = v.message.len() as int;
    let nn = spec_ser_int(v.timestamp);
    let ll = nn.len() as int;
    assert(b0.len() == 14);
    assert(c0.len() == 16);
    assert forall|x: int| i <= x < i + t.len() implies #[trigger] s[x] == t[x - i] by {
        assert(s[i + (x - i)] == t[x - i]);
    }
    let i2 = i + 14 + m;

    // The key.
    assert(s[i2] == '"') by {
        assert(t[14 + m] == b0[2]);
    }
    assert forall|k: int| 0 <= k < 9 implies s[i2 + 1 + k] == ("timestamp"@)[k] by {
        assert(t[15 + m + k] == b0[3 + k]);
        assert(s[i2 + 1 + k] == t[15 + m + k]);
    }
    assert(s[i2 + 10] == '"') by {
        assert(t[24 + m] == b0[12]);
    }
    assert(plain_seq("timestamp"@));
    lemma_parse_string_at(s, i2, "timestamp"@);
    assert(s[i2 + 11] == ':') by {
        assert(t[25 + m] == b0[13]);
    }
    assert(spec_skip_ws(s, i2 + 11) == i2 + 11);

    // The key is `timestamp`, not `message`.
    assert("timestamp"@ != "message"@);

    // The integer value.
    let kn = i2 + 12;
    lemma_ser_nat_digits(if v.timestamp < 0 {
        -v.timestamp
    } else {
        v.timestamp
    });
    assert forall|k: int| 0 <= k < ll implies s[kn + k] == nn[k] by {
        assert(s[i + (26 + m + k)] == t[26 + m + k]);
        assert(t[26 + m + k] == nn[k]);
    }
    assert(s[kn + 0] == nn[0]);
    assert(!is_ws_char(nn[0])) by {
        if v.timestamp < 0 {
            assert(nn[0] == '-');
        } else {
            assert(is_digit_char(nn[0]));
        }
    }
    assert(spec_skip_ws(s, kn) == kn);
    assert(s[kn + ll] == ',') by {
        assert(t[26 + m + ll] == c0[0]);
    }
    assert(!is_digit_char(','));
    lemma_parse_int_at(s, kn, v.timestamp);
    assert(spec_parse_int(s, kn) == Some((v.timestamp, kn + ll)));

    // On to the third member.
    assert(spec_skip_ws(s, kn + ll) == kn + ll);
    assert(s[kn + ll + 1] == '"') by {
        assert(t[27 + m + ll] == c0[1]);
    }
    assert(spec_skip_ws(s, kn + ll + 1) == kn + ll + 1);
    lemma_iss_now_member3(s, i, v);
    assert(spec_iss_now_members(s, i2, Some(v.message), None, None) == Some(
        (v, i + t.len()),
    ));
}

/// Serializing a well-formed position report and parsing the result as a
/// whole document gives back exactly that report.
#[verifier::rlimit(100)]
pub proof fn theorem_iss_now_round_trip(v: IssNowView)
    requires
        iss_now_wf(v),
    ensures
        spec_parse_iss_now_doc(spec_ser_iss_now(v)) == Some(v),
{
    reveal_strlit("{\"message\":\"");
    reveal_strlit("\",\"timestamp\":");
    reveal_strlit("message");
    let a0 = "{\"message\":\""@;
    let b0 = "\",\"timestamp\":"@;
    let t = spec_ser_iss_now(v);
    let s = t;
    let m = v.message.len() as int;
    assert(a0.len() == 12);
    assert(b0.len() == 14);
    assert forall|x: int| 0 <= x < t.len() implies #[trigger] s[x] == t[x - 0] by {
        assert(x - 0 == x);
    }

    // The document starts at the brace.
    assert(s[0] == '{') by {
        assert(t[0] == a0[0]);
    }
    assert(spec_skip_ws(s, 0) == 0);
    assert(s[1] == '"') by {
        assert(t[1] == a0[1]);
    }
    assert(spec_skip_ws(s, 1) == 1);

    // The first member: the message.
    assert forall|k: int| 0 <= k < 7 implies s[1 + 1 + k] == ("message"@)[k] by {
        assert(t[2 + k] == a0[2 + k]);
        assert(s[1 + 1 + k] == t[2 + k]);
    }
    assert(s[9] == '"') by {
        assert(t[9] == a0[9]);
    }
    assert(plain_seq("message"@));
    lemma_parse_string_at(s, 1, "message"@);
    assert(s[10] == ':') by {
        assert(t[10] == a0[10]);
    }
    assert(spec_skip_ws(s, 10) == 10);
    assert(s[11] == '"') by {
        assert(t[11] == a0[11]);
    }
    assert(spec_skip_ws(s, 11) == 11);
    assert forall|k: int| 0 <= k < m implies s[11 + 1 + k] == v.message[k] by {
        assert(s[12 + k] == t[12 + k]);
        assert(t[12 + k] == v.message[k]);
    }
    assert(s[12 + m] == '"') by {
        assert(t[12 + m] == b0[0]);
    }
    lemma_parse_string_at(s, 11, v.message);
    assert(spec_parse_string(s, 11) == Some((v.message, 13 + m)));

    // The comma, then the rest by the member lemmas.
    assert(s[13 + m] == ',') by {
        assert(t[13 + m] == b0[1]);
    }
    assert(spec_skip_ws(s, 13 + m) == 13 + m);
    assert(s[14 + m] == '"') by {
        assert(t[14 + m] == b0[2]);
    }
    assert(spec_skip_ws(s, 14 + m) == 14 + m);
    lemma_iss_now_member2(s, 0, v);
    assert(spec_iss_now_members(s, 1, None, None, None) == Some((v, t.len() as int)));
    assert(spec_parse_iss_now(s, 0) == Some((v, t.len() as int)));
    assert(spec_skip_ws(s, t.len() as int) == t.len() as int);
}

// ------------------------------------------------------------------
// Pass-times round trip
// ------------------------------------------------------------------

/// A pass whose fields the codec round-trips.
pub open spec fn pass_wf(p: IssPassTimeView) -> bool {
    -i64::MAX <= p.risetime <= i64::MAX && -i64::MAX <= p.duration <= i64::MAX
}

/// All passes in the sequence are well formed.
pub open spec fn passes_wf(ps: Seq<IssPassTimeView>) -> bool {
    forall|k: int| 0 <= k < ps.len() ==> pass_wf(#[trigger] ps[k])
}

/// A pass-times reply whose fields the codec round-trips.
pub open spec fn pass_times_wf(v: IssPassTimesView) -> bool {
    plain_seq(v.message) && plain_seq(v.reason) && passes_wf(v.passes)
}

/// The serialized form of a pass starts with the opening brace.
pub proof fn lemma_ser_pass_first(p: IssPassTimeView)
    ensures
        spec_ser_pass(p).len() >= 12,
        spec_ser_pass(p)[0] == '{',
{
    reveal_strlit("{\"risetime\":");
}

/// The serialized items of a non-empty pass list start with a brace.
pub proof fn lemma_ser_pass_items_first(ps: Seq<IssPassTimeView>)
    requires
        ps.len() >= 1,
    ensures
        spec_ser_pass_items(ps).len() >= 12,
        spec_ser_pass_items(ps)[0] == '{',
{
    lemma_ser_pass_first(ps[0]);
}

/// The serialized form of a well-formed pass, standing at `i`, parses back
/// to exactly that pass.
#[verifier::rlimit(100)]
pub proof fn lemma_parse_pass_at(s: Seq<char>, i: int, p: IssPassTimeView)
    requires
        pass_wf(p),
        0 <= i,
        i + spec_ser_pass(p).len() <= s.len(),
        forall|k: int| 0 <= k < spec_ser_pass(p).len() ==> s[i + k] == spec_ser_pass(p)[k],
    ensures
        spec_parse_pass(s, i) == Some((p, i + spec_ser_pass(p).len())),
{
    reveal_strlit("{\"risetime\":");
    reveal_strlit(",\"duration\":");
    reveal_strlit("}");
    reveal_strlit("risetime");
    reveal_strlit("duration");
    let a = "{\"risetime\":"@;
    let b = ",\"duration\":"@;
    let c = "}"@;
    let t = spec_ser_pass(p);
    let n1 = spec_ser_int(p.risetime);
    let l1 = n1.len() as int;
    let n2 = spec_ser_int(p.duration);
    let l2 = n2.len() as int;
    assert(a.len() == 12);
    assert(b.len() == 12);
    assert(c.len() == 1);
    assert(t.len() == 25 + l1 + l2);
    assert forall|x: int| i <= x < i + t.len() implies #[trigger] s[x] == t[x - i] by {
        assert(s[i + (x - i)] == t[x - i]);
    }
    lemma_ser_nat_digits(if p.risetime < 0 {
        -p.risetime
    } else {
        p.risetime
    });
    lemma_ser_nat_digits(if p.duration < 0 {
        -p.duration
    } else {
        p.duration
    });

    // The opening brace and the first key.
    assert(t[0] == a[0]);
    assert(s[i] == '{');
    assert(s[i + 1] == '"');
    assert(spec_skip_ws(s, i + 1) == i + 1);
    assert forall|k: int| 0 <= k < 8 implies s[i + 2 + k] == ("risetime"@)[k] by {
        assert(s[i + 2 + k] == t[2 + k]);
        assert(t[2 + k] == a[2 + k]);
    }
    assert(s[i + 10] == '"');
    assert(plain_seq("risetime"@));
    lemma_parse_string_at(s, i + 1, "risetime"@);
    assert(s[i + 11] == ':');
    assert(spec_skip_ws(s, i + 11) == i + 11);

    // The risetime value.
    assert forall|k: int| 0 <= k < l1 implies s[i + 12 + k] == n1[k] by {
        assert(s[i + 12 + k] == t[12 + k]);
        assert(t[12 + k] == n1[k]);
    }
    assert(s[i + 12 + 0] == n1[0]);
    assert(!is_ws_char(n1[0])) by {
        if p.risetime < 0 {
            assert(n1[0] == '-');
        } else {
            assert(is_digit_char(n1[0]));
        }
    }
    assert(spec_skip_ws(s, i + 12) == i + 12);
    assert(s[i + 12 + l1] == b[0]);
    assert(s[i + 12 + l1] == ',');
    assert(!is_digit_char(','));
    lemma_parse_int_at(s, i + 12, p.risetime);
    assert(spec_parse_int(s, i + 12) == Some((p.risetime, i + 12 + l1)));

    // The comma, then the second key.
    assert(spec_skip_ws(s, i + 12 + l1) == i + 12 + l1);
    assert(s[i + 13 + l1] == b[1]);
    assert(s[i + 13 + l1] == '"');
    assert(spec_skip_ws(s, i + 13 + l1) == i + 13 + l1);
    assert forall|k: int| 0 <= k < 8 implies s[i + 14 + l1 + k] == ("duration"@)[k] by {
        assert(s[i + 14 + l1 + k] == t[14 + l1 + k]);
        assert(t[14 + l1 + k] == b[2 + k]);
    }
    assert(s[i + 22 + l1] == b[10]);
    assert(s[i + 22 + l1] == '"');
    assert(plain_seq("duration"@));
    lemma_parse_string_at(s, i + 13 + l1, "duration"@);
    assert(s[i + 23 + l1] == b[11]);
    assert(s[i + 23 + l1] == ':');
    assert(spec_skip_ws(s, i + 23 + l1) == i + 23 + l1);

    // The keys differ.
    assert(("duration"@)[0] != ("risetime"@)[0]);
    assert("duration"@ != "risetime"@);

    // The duration value.
    assert forall|k: int| 0 <= k < l2 implies s[i + 24 + l1 + k] == n2[k] by {
        assert(s[i + 24 + l1 + k] == t[24 + l1 + k]);
        assert(t[24 + l1 + k] == n2[k]);
    }
    assert(s[i + 24 + l1 + 0] == n2[0]);
    assert(!is_ws_char(n2[0])) by {
        if p.duration < 0 {
            assert(n2[0] == '-');
        } else {
            assert(is_digit_char(n2[0]));
        }
    }
    assert(spec_skip_ws(s, i + 24 + l1) == i + 24 + l1);
    assert(s[i + 24 + l1 + l2] == c[0]);
    assert(s[i + 24 + l1 + l2] == '}');
    assert(!is_digit_char('}'));
    lemma_parse_int_at(s, i + 24 + l1, p.duration);
    assert(spec_parse_int(s, i + 24 + l1) == Some((p.duration, i + 24 + l1 + l2)));

    // The closing brace.
    assert(spec_skip_ws(s, i + 24 + l1 + l2) == i + 24 + l1 + l2);
    assert(spec_pass_members(s, i + 13 + l1, Some(p.risetime), None) == Some(
        (p, i + 25 + l1 + l2),
    ));
    assert(spec_pass_members(s, i + 1, None, None) == Some((p, i + 25 + l1 + l2)));
}

/// The serialized items of a non-empty pass list at `i`, followed by the
/// closing bracket, parse back to the accumulator extended by that list.
pub proof fn lemma_pass_items_at(
    s: Seq<char>,
    i: int,
    ps: Seq<IssPassTimeView>,
    acc: Seq<IssPassTimeView>,
)
    requires
        ps.len() >= 1,
        passes_wf(ps),
        0 <= i,
        i + spec_ser_pass_items(ps).len() + 1 <= s.len(),
        forall|k: int|
            0 <= k < spec_ser_pass_items(ps).len() ==> s[i + k] == spec_ser_pass_items(ps)[k],
        s[i + spec_ser_pass_items(ps).len()] == ']',
    ensures
        spec_pass_items(s, i, acc) == Some(
            (acc + ps, i + spec_ser_pass_items(ps).len() + 1),
        ),
    decreases ps.len(),
{
    let t = spec_ser_pass_items(ps);
    assert forall|x: int| i <= x < i + t.len() implies #[trigger] s[x] == t[x - i] by {
        assert(s[i + (x - i)] == t[x - i]);
    }
    let p0 = ps[0];
    let t0 = spec_ser_pass(p0);
    if ps.len() == 1 {
        assert(t == t0);
        lemma_parse_pass_at(s, i, p0);
        assert(s[i + t0.len()] == ']');
        assert(spec_skip_ws(s, i + t0.len()) == i + t0.len());
        assert(acc.push(p0) =~= acc + ps);
    } else {
        let rest = ps.drop_first();
        let tr = spec_ser_pass_items(rest);
        assert(t == t0 + seq![','] + tr);
        assert forall|k: int| 0 <= k < t0.len() implies s[i + k] == t0[k] by {
            assert(t[k] == t0[k]);
        }
        lemma_parse_pass_at(s, i, p0);
        let j = i + t0.len();
        assert(s[j] == ',') by {
            assert(t[t0.len() as int] == ',');
        }
        assert(spec_skip_ws(s, j) == j);
        let m = j + 1;
        assert forall|k: int| 0 <= k < tr.len() implies s[m + k] == tr[k] by {
            assert(s[i + (t0.len() + 1 + k)] == t[t0.len() + 1 + k]);
            assert(t[t0.len() + 1 + k] == tr[k]);
        }
        assert(s[m + tr.len()] == ']') by {
            assert(t.len() == t0.len() + 1 + tr.len());
        }
        lemma_ser_pass_items_first(rest);
        assert(spec_skip_ws(s, m) == m) by {
            assert(s[m + 0] == tr[0]);
            assert(tr[0] == '{');
        }
        assert(passes_wf(rest));
        lemma_pass_items_at(s, m, rest, acc.push(p0));
        assert(acc.push(p0) + rest =~= acc + ps);
        assert(spec_pass_items(s, i, acc) == Some((acc + ps, m + tr.len() + 1)));
    }
}

/// A serialized pass array (brackets included) at `i` parses back to
/// exactly the original list.
pub proof fn lemma_parse_passes_at(s: Seq<char>, i: int, ps: Seq<IssPassTimeView>)
    requires
        passes_wf(ps),
        0 <= i,
        i + spec_ser_pass_items(ps).len() + 2 <= s.len(),
        s[i] == '[',
        forall|k: int|
            0 <= k < spec_ser_pass_items(ps).len() ==> s[i + 1 + k] == spec_ser_pass_items(
                ps,
            )[k],
        s[i + 1 + spec_ser_pass_items(ps).len()] == ']',
    ensures
        spec_parse_passes(s, i) == Some((ps, i + spec_ser_pass_items(ps).len() + 2)),
{
    let t = spec_ser_pass_items(ps);
    if ps.len() == 0 {
        assert(t.len() == 0);
        assert(s[i + 1 + 0] == ']');
        assert(spec_skip_ws(s, i + 1) == i + 1);
        assert(ps =~= Seq::<IssPassTimeView>::empty());
    } else {
        lemma_ser_pass_items_first(ps);
        assert(s[i + 1 + 0] == t[0]);
        assert(spec_skip_ws(s, i + 1) == i + 1);
        lemma_pass_items_at(s, i + 1, ps, Seq::empty());
        assert(Seq::<IssPassTimeView>::empty() + ps =~= ps);
    }
}

/// The third member of a serialized pass-times reply (`response`), with
/// `message` and `reason` already read, finishes the object.
#[verifier::rlimit(100)]
proof fn lemma_pass_times_member3(s: Seq<char>, i: int, v: IssPassTimesView)
    requires
        pass_times_wf(v),
        0 <= i,
        i + spec_ser_pass_times(v).len() <= s.len(),
        forall|k: int|
            0 <= k < spec_ser_pass_times(v).len() ==> s[i + k] == spec_ser_pass_times(v)[k],
    ensures
        spec_pass_times_members(
            s,
            i + 26 + v.message.len() + v.reason.len(),
            Some(v.message),
            Some(v.reason),
            None,
        ) == Some((v, i + spec_ser_pass_times(v).len())),
{
    reveal_strlit("{\"message\":\"");
    reveal_strlit("\",\"reason\":\"");
    reveal_strlit("\",\"response\":[");
    reveal_strlit("]}");
    reveal_strlit("message");
    reveal_strlit("reason");
    reveal_strlit("response");
    let a0 = "{\"message\":\""@;
    let b0 = "\",\"reason\":\""@;
    let c0 = "\",\"response\":["@;
    let d0 = "]}"@;
    let t = spec_ser_pass_times(v);
    let m = v.message.len() as int;
    let rl = v.reason.len() as int;
    let it = spec_ser_pass_items(v.passes);
    let pp = it.len() as int;
    assert(a0.len() == 12);
    assert(b0.len() == 12);
    assert(c0.len() == 14);
    assert(d0.len() == 2);
    assert(t.len() == 40 + m + rl + pp);
    assert forall|x: int| i <= x < i + t.len() implies #[trigger] s[x] == t[x - i] by {
        assert(s[i + (x - i)] == t[x - i]);
    }
    let i3 = i + 26 + m + rl;

    // The key.
    assert(s[i3] == '"') by {
        assert(t[26 + m + rl] == c0[2]);
    }
    assert forall|k: int| 0 <= k < 8 implies s[i3 + 1 + k] == ("response"@)[k] by {
        assert(t[27 + m + rl + k] == c0[3 + k]);
        assert(s[i3 + 1 + k] == t[27 + m + rl + k]);
    }
    assert(s[i3 + 9] == '"') by {
        assert(t[35 + m + rl] == c0[11]);
    }
    assert(plain_seq("response"@));
    lemma_parse_string_at(s, i3, "response"@);
    assert(s[i3 + 10] == ':') by {
        assert(t[36 + m + rl] == c0[12]);
    }
    assert(spec_skip_ws(s, i3 + 10) == i3 + 10);
    assert(spec_skip_ws(s, i3 + 11) == i3 + 11) by {
        assert(t[37 + m + rl] == c0[13]);
    }

    // The key is `response`, not `message` or `reason`.
    assert("response"@ != "message"@);
    assert("response"@ != "reason"@);

    // The pass array.
    let karr = i3 + 11;
    assert(s[karr] == '[') by {
        assert(t[37 + m + rl] == c0[13]);
    }
    assert forall|k: int| 0 <= k < pp implies s[karr + 1 + k] == it[k] by {
        assert(s[i + (38 + m + rl + k)] == t[38 + m + rl + k]);
        assert(t[38 + m + rl + k] == it[k]);
    }
    assert(s[karr + 1 + pp] == ']') by {
        assert(t[38 + m + rl + pp] == d0[0]);
    }
    lemma_parse_passes_at(s, karr, v.passes);
    assert(spec_parse_passes(s, karr) == Some((v.passes, karr + pp + 2)));

    // The closing brace.
    let e = karr + pp + 2;
    assert(s[e] == '}') by {
        assert(t[39 + m + rl + pp] == d0[1]);
    }
    assert(spec_skip_ws(s, e) == e);
    assert(spec_pass_times_members(s, i3, Some(v.message), Some(v.reason), None) == Some(
        (v, e + 1),
    ));
}

/// The second member of a serialized pass-times reply (`reason`), with
/// `message` already read.
#[verifier::rlimit(100)]
proof fn lemma_pass_times_member2(s: Seq<char>, i: int, v: IssPassTimesView)
    requires
        pass_times_wf(v),
        0 <= i,
        i + spec_ser_pass_times(v).len() <= s.len(),
        forall|k: int|
            0 <= k < spec_ser_pass_times(v).len() ==> s[i + k] == spec_ser_pass_times(v)[k],
    ensures
        spec_pass_times_members(s, i + 14 + v.message.len(), Some(v.message), None, None) == Some(
            (v, i + spec_ser_pass_times(v).len()),
        ),
{
    reveal_strlit("{\"message\":\"");
    reveal_strlit("\",\"reason\":\"");
    reveal_strlit("\",\"response\":[");
    reveal_strlit("message");
    reveal_strlit("reason");
    let a0 = "{\"message\":\""@;
    let b0 = "\",\"reason\":\""@;
    let c0 = "\",\"response\":["@;
    let t = spec_ser_pass_times(v);
    let m = v.message.len() as int;
    let rl = v.reason.len() as int;
    assert(a0.len() == 12);
    assert(b0.len() == 12);
    assert(c0.len() == 14);
    assert forall|x: int| i <= x < i + t.len() implies #[trigger] s[x] == t[x - i] by {
        assert(s[i + (x - i)] == t[x - i]);
    }
    let i2 = i + 14 + m;

    // The key.
    assert(s[i2] == '"') by {
        assert(t[14 + m] == b0[2]);
    }
    assert forall|k: int| 0 <= k < 6 implies s[i2 + 1 + k] == ("reason"@)[k] by {
        assert(t[15 + m + k] == b0[3 + k]);
        assert(s[i2 + 1 + k] == t[15 + m + k]);
    }
    assert(s[i2 + 7] == '"') by {
        assert(t[21 + m] == b0[9]);
    }
    assert(plain_seq("reason"@));
    lemma_parse_string_at(s, i2, "reason"@);
    assert(s[i2 + 8] == ':') by {
        assert(t[22 + m] == b0[10]);
    }
    assert(spec_skip_ws(s, i2 + 8) == i2 + 8);
    assert(s[i2 + 9] == '"') by {
        assert(t[23 + m] == b0[11]);
    }
    assert(spec_skip_ws(s, i2 + 9) == i2 + 9);

    // The key is `reason`, not `message`.
    assert("reason"@ != "message"@);

    // The reason value.
    let kr = i2 + 9;
    assert forall|k: int| 0 <= k < rl implies s[kr + 1 + k] == v.reason[k] by {
        assert(s[i + (24 + m + k)] == t[24 + m + k]);
        assert(t[24 + m + k] == v.reason[k]);
    }
    assert(s[kr + 1 + rl] == '"') by {
        assert(t[24 + m + rl] == c0[0]);
    }
    lemma_parse_string_at(s, kr, v.reason);
    assert(spec_parse_string(s, kr) == Some((v.reason, kr + rl + 2)));

    // On to the third member.
    let e = kr + rl + 2;
    assert(s[e] == ',') by {
        assert(t[25 + m + rl] == c0[1]);
    }
    assert(spec_skip_ws(s, e) == e);
    assert(s[e + 1] == '"') by {
        assert(t[26 + m + rl] == c0[2]);
    }
    assert(spec_skip_ws(s, e + 1) == e + 1);
    lemma_pass_times_member3(s, i, v);
    assert(spec_pass_times_members(s, i2, Some(v.message), None, None) == Some(
        (v, i + t.len()),
    ));
}

/// Serializing a well-formed pass-times reply and parsing the result as a
/// whole document gives back exactly that reply.
#[verifier::rlimit(100)]
pub proof fn theorem_pass_times_round_trip(v: IssPassTimesView)
    requires
        pass_times_wf(v),
    ensures
        spec_parse_pass_times_doc(spec_ser_pass_times(v)) == Some(v),
{
    reveal_strlit("{\"message\":\"");
    reveal_strlit("\",\"reason\":\"");
    reveal_strlit("message");
    let a0 = "{\"message\":\""@;
    let b0 = "\",\"reason\":\""@;
    let t = spec_ser_pass_times(v);
    let s = t;
    let m = v.message.len() as int;
    assert(a0.len() == 12);
    assert(b0.len() == 12);
    assert forall|x: int| 0 <= x < t.len() implies #[trigger] s[x] == t[x - 0] by {
        assert(x - 0 == x);
    }

    // The document starts at the brace.
    assert(s[0] == '{') by {
        assert(t[0] == a0[0]);
    }
    assert(spec_skip_ws(s, 0) == 0);
    assert(s[1] == '"') by {
        assert(t[1] == a0[1]);
    }
    assert(spec_skip_ws(s, 1) == 1);

    // The first member: the message.
    assert forall|k: int| 0 <= k < 7 implies s[1 + 1 + k] == ("message"@)[k] by {
        assert(t[2 + k] == a0[2 + k]);
        assert(s[1 + 1 + k] == t[2 + k]);
    }
    assert(s[9] == '"') by {
        assert(t[9] == a0[9]);
    }
    assert(plain_seq("message"@));
    lemma_parse_string_at(s, 1, "message"@);
    assert(s[10] == ':') by {
        assert(t[10] == a0[10]);
    }
    assert(spec_skip_ws(s, 10) == 10);
    assert(s[11] == '"') by {
        assert(t[11] == a0[11]);
    }
    assert(spec_skip_ws(s, 11) == 11);
    assert forall|k: int| 0 <= k < m implies s[11 + 1 + k] == v.message[k] by {
        assert(s[12 + k] == t[12 + k]);
        assert(t[12 + k] == v.message[k]);
    }
    assert(s[12 + m] == '"') by {
        assert(t[12 + m] == b0[0]);
    }
    lemma_parse_string_at(s, 11, v.message);
    assert(spec_parse_string(s, 11) == Some((v.message, 13 + m)));

    // The comma, then the rest by the member lemmas.
    assert(s[13 + m] == ',') by {
        assert(t[13 + m] == b0[1]);
    }
    assert(spec_skip_ws(s, 13 + m) == 13 + m);
    assert(s[14 + m] == '"') by {
        assert(t[14 + m] == b0[2]);
    }
    assert(spec_skip_ws(s, 14 + m) == 14 + m);
    lemma_pass_times_member2(s, 0, v);
    assert(spec_pass_times_members(s, 1, None, None, None) == Some((v, t.len() as int)));
    assert(spec_parse_pass_times(s, 0) == Some((v, t.len() as int)));
    assert(spec_skip_ws(s, t.len() as int) == t.len() as int);
}

} // verus!
