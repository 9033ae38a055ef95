//! Shape layer of the JSON codec: parsers for the wire form of each domain
//! record. As in the lexical layer, every exec parser mirrors a spec parser
//! over the character sequence.
//!
//! Objects accept their keys in any order; a key the record does not use is
//! skipped; a repeated key is rejected. `Astros` requires `message`,
//! `number` and `people`; `IssNow` requires `message`, `timestamp` and
//! `iss_position`; `IssPassTimes` requires `message`, while `reason`
//! defaults to the empty string and `response` to the empty list.

use vstd::prelude::*;

use crate::json::{
    parse_int, parse_string, skip_value, skip_ws, spec_parse_int, spec_parse_string,
    spec_skip_value, spec_skip_ws,
};
use crate::{
    Astros, AstrosView, IssNow, IssNowView, IssPassTime, IssPassTimeView, IssPassTimes,
    IssPassTimesView, IssPosition, Person, PersonView,
};

verus! {

/// Views of `Option`s of machine integers, for relating exec accumulators
/// to spec accumulators.
pub open spec fn opt_int_view(o: Option<i32>) -> Option<int> {
    match o {
        Some(v) => Some(v as int),
        None => None,
    }
}

pub open spec fn opt_i64_view(o: Option<i64>) -> Option<int> {
    match o {
        Some(v) => Some(v as int),
        None => None,
    }
}

// ------------------------------------------------------------------
// Person objects
// ------------------------------------------------------------------

/// Members of a person object, positioned at a key; `name` and `craft` hold
/// the fields seen so far.
pub open spec fn spec_person_members(
    s: Seq<char>,
    i: int,
    name: Option<Seq<char>>,
    craft: Option<Seq<char>>,
) -> Option<(PersonView, int)>
    decreases s.len() - i,
{
    if !(0 <= i <= s.len()) {
        None
    } else {
        match spec_parse_string(s, i) {
            None => None,
            Some(kj) => {
                let j1 = spec_skip_ws(s, kj.1);
                if !(j1 < s.len() && s[j1] == ':') {
                    None
                } else {
                    let k = spec_skip_ws(s, j1 + 1);
                    if !(i < k <= s.len()) {
                        None
                    } else {
                        let upd: Option<(Option<Seq<char>>, Option<Seq<char>>, int)> = if kj.0
                            == "name"@ {
                            if name is Some {
                                None
                            } else {
                                match spec_parse_string(s, k) {
                                    Some(cj) => Some((Some(cj.0), craft, cj.1)),
                                    None => None,
                                }
                            }
                        } else if kj.0 == "craft"@ {
                            if craft is Some {
                                None
                            } else {
                                match spec_parse_string(s, k) {
                                    Some(cj) => Some((name, Some(cj.0), cj.1)),
                                    None => None,
                                }
                            }
                        } else {
                            match spec_skip_value(s, k) {
                                Some(e) => Some((name, craft, e)),
                                None => None,
                            }
                        };
                        match upd {
                            None => None,
                            Some(st) => {
                                let j2 = spec_skip_ws(s, st.2);
                                if j2 < s.len() && s[j2] == '}' {
                                    match (st.0, st.1) {
                                        (
                                            Some(nm),
                                            Some(cr),
                                        ) => Some(
                                            (PersonView { name: nm, craft: cr }, j2 + 1),
                                        ),
                                        _ => None,
                                    }
                                } else if j2 < s.len() && s[j2] == ',' {
                                    let m = spec_skip_ws(s, j2 + 1);
                                    if i < m <= s.len() {
                                        spec_person_members(s, m, st.0, st.1)
                                    } else {
                                        None
                                    }
                                } else {
                                    None
                                }
                            },
                        }
                    }
                }
            },
        }
    }
}

/// A person object at `i`.
pub open spec fn spec_parse_person(s: Seq<char>, i: int) -> Option<(PersonView, int)> {
    if 0 <= i < s.len() && s[i] == '{' {
        let j = spec_skip_ws(s, i + 1);
        spec_person_members(s, j, None, None)
    } else {
        None
    }
}

fn person_members(
    s: &str,
    i: usize,
    n: usize,
    name: Option<String>,
    craft: Option<String>,
) -> (r: Option<(Person, usize)>)
    requires
        n == s@.len(),
        i <= n,
    ensures
        match r {
            Some(pj) => spec_person_members(s@, i as int, name.deep_view(), craft.deep_view())
                == Some((pj.0@, pj.1 as int)) && i < pj.1 <= n,
            None => spec_person_members(s@, i as int, name.deep_view(), craft.deep_view()) is None,
        },
    decreases n - i,
{
    match parse_string(s, i, n) {
        None => None,
        Some((key, ke)) => {
            let j1 = skip_ws(s, ke, n);
            if !(j1 < n && s.get_char(j1) == ':') {
                None
            } else {
                let k = skip_ws(s, j1 + 1, n);
                if !(i < k && k <= n) {
                    return None;
                }
                let upd: Option<(Option<String>, Option<String>, usize)> = if key
                    == String::from_str("name") {
                    if name.is_some() {
                        None
                    } else {
                        match parse_string(s, k, n) {
                            Some((v, ve)) => Some((Some(v), craft, ve)),
                            None => None,
                        }
                    }
                } else if key == String::from_str("craft") {
                    if craft.is_some() {
                        None
                    } else {
                        match parse_string(s, k, n) {
                            Some((v, ve)) => Some((name, Some(v), ve)),
                            None => None,
                        }
                    }
                } else {
                    match skip_value(s, k, n) {
                        Some(e) => Some((name, craft, e)),
                        None => None,
                    }
                };
                match upd {
                    None => None,
                    Some((name2, craft2, ve)) => {
                        let j2 = skip_ws(s, ve, n);
                        if j2 < n && s.get_char(j2) == '}' {
                            match (name2, craft2) {
                                (Some(nm), Some(cr)) => Some(
                                    (Person { name: nm, craft: cr }, j2 + 1),
                                ),
                                _ => None,
                            }
                        } else if j2 < n && s.get_char(j2) == ',' {
                            let m = skip_ws(s, j2 + 1, n);
                            if i < m && m <= n {
                                person_members(s, m, n, name2, craft2)
                            } else {
                                None
                            }
                        } else {
                            None
                        }
                    },
                }
            }
        },
    }
}

fn parse_person(s: &str, i: usize, n: usize) -> (r: Option<(Person, usize)>)
    requires
        n == s@.len(),
        i <= n,
    ensures
        match r {
            Some(pj) => spec_parse_person(s@, i as int) == Some((pj.0@, pj.1 as int)) && i < pj.1
                <= n,
            None => spec_parse_person(s@, i as int) is None,
        },
{
    if i < n && s.get_char(i) == '{' {
        let j = skip_ws(s, i + 1, n);
        person_members(s, j, n, None, None)
    } else {
        None
    }
}

// ------------------------------------------------------------------
// Arrays of person objects
// ------------------------------------------------------------------

/// Items of a people array, positioned at an item; `acc` holds the items
/// already read.
pub open spec fn spec_people_items(s: Seq<char>, i: int, acc: Seq<PersonView>) -> Option<
    (Seq<PersonView>, int),
>
    decreases s.len() - i,
{
    if !(0 <= i <= s.len()) {
        None
    } else {
        match spec_parse_person(s, i) {
            None => None,
            Some(pj) => {
                let j = spec_skip_ws(s, pj.1);
                if j < s.len() && s[j] == ']' {
                    Some((acc.push(pj.0), j + 1))
                } else if j < s.len() && s[j] == ',' {
                    let m = spec_skip_ws(s, j + 1);
                    if i < m <= s.len() {
                        spec_people_items(s, m, acc.push(pj.0))
                    } else {
                        None
                    }
                } else {
                    None
                }
            },
        }
    }
}

/// A people array at `i`.
pub open spec fn spec_parse_people(s: Seq<char>, i: int) -> Option<(Seq<PersonView>, int)> {
    if 0 <= i < s.len() && s[i] == '[' {
        let j = spec_skip_ws(s, i + 1);
        if j < s.len() && s[j] == ']' {
            Some((Seq::empty(), j + 1))
        } else {
            spec_people_items(s, j, Seq::empty())
        }
    } else {
        None
    }
}

fn people_items(s: &str, i: usize, n: usize, acc: Vec<Person>) -> (r: Option<(Vec<Person>, usize)>)
    requires
        n == s@.len(),
        i <= n,
    ensures
        match r {
            Some(vj) => spec_people_items(s@, i as int, acc.deep_view()) == Some(
                (vj.0.deep_view(), vj.1 as int),
            ) && i < vj.1 <= n,
            None => spec_people_items(s@, i as int, acc.deep_view()) is None,
        },
    decreases n - i,
{
    match parse_person(s, i, n) {
        None => None,
        Some((p, pe)) => {
            let ghost accv = acc.deep_view();
            let ghost pv = p@;
            let j = skip_ws(s, pe, n);
            if j < n && s.get_char(j) == ']' {
                let mut acc2 = acc;
                acc2.push(p);
                proof {
                    assert(acc2.deep_view() =~= accv.push(pv));
                }
                Some((acc2, j + 1))
            } else if j < n && s.get_char(j) == ',' {
                let m = skip_ws(s, j + 1, n);
                if i < m && m <= n {
                    let mut acc2 = acc;
                    acc2.push(p);
                    proof {
                        assert(acc2.deep_view() =~= accv.push(pv));
                    }
                    people_items(s, m, n, acc2)
                } else {
                    None
                }
            } else {
                None
            }
        },
    }
}

fn parse_people(s: &str, i: usize, n: usize) -> (r: Option<(Vec<Person>, usize)>)
    requires
        n == s@.len(),
        i <= n,
    ensures
        match r {
            Some(vj) => spec_parse_people(s@, i as int) == Some((vj.0.deep_view(), vj.1 as int))
                && i < vj.1 <= n,
            None => spec_parse_people(s@, i as int) is None,
        },
{
    if i < n && s.get_char(i) == '[' {
        let j = skip_ws(s, i + 1, n);
        if j < n && s.get_char(j) == ']' {
            let empty: Vec<Person> = Vec::new();
            proof {
                assert(empty.deep_view() =~= Seq::<PersonView>::empty());
            }
            Some((empty, j + 1))
        } else {
            let empty: Vec<Person> = Vec::new();
            proof {
                assert(empty.deep_view() =~= Seq::<PersonView>::empty());
            }
            people_items(s, j, n, empty)
        }
    } else {
        None
    }
}

// ------------------------------------------------------------------
// Astros manifests
// ------------------------------------------------------------------

/// The value under one key of an astros object: `message` is a string,
/// `number` an integer that fits `i32`, `people` an array of person
/// objects; any other key is skipped. The result carries the updated field
/// accumulators and the position after the value.
pub open spec fn spec_astros_field(
    s: Seq<char>,
    k: int,
    key: Seq<char>,
    msg: Option<Seq<char>>,
    num: Option<int>,
    ppl: Option<Seq<PersonView>>,
) -> Option<((Option<Seq<char>>, Option<int>, Option<Seq<PersonView>>), int)> {
    if key == "message"@ {
        if msg is Some {
            None
        } else {
            match spec_parse_string(s, k) {
                Some(cj) => Some(((Some(cj.0), num, ppl), cj.1)),
                None => None,
            }
        }
    } else if key == "number"@ {
        if num is Some {
            None
        } else {
            match spec_parse_int(s, k) {
                Some(vj) => if -2147483648 <= vj.0 <= 2147483647 {
                    Some(((msg, Some(vj.0), ppl), vj.1))
                } else {
                    None
                },
                None => None,
            }
        }
    } else if key == "people"@ {
        if ppl is Some {
            None
        } else {
            match spec_parse_people(s, k) {
                Some(pj) => Some(((msg, num, Some(pj.0)), pj.1)),
                None => None,
            }
        }
    } else {
        match spec_skip_value(s, k) {
            Some(e) => Some(((msg, num, ppl), e)),
            None => None,
        }
    }
}

/// Members of an astros object, positioned at a key.
pub open spec fn spec_astros_members(
    s: Seq<char>,
    i: int,
    msg: Option<Seq<char>>,
    num: Option<int>,
    ppl: Option<Seq<PersonView>>,
) -> Option<(AstrosView, int)>
    decreases s.len() - i,
{
    if !(0 <= i <= s.len()) {
        None
    } else {
        match spec_parse_string(s, i) {
            None => None,
            Some(kj) => {
                let j1 = spec_skip_ws(s, kj.1);
                if !(j1 < s.len() && s[j1] == ':') {
                    None
                } else {
                    let k = spec_skip_ws(s, j1 + 1);
                    if !(i < k <= s.len()) {
                        None
                    } else {
                        match spec_astros_field(s, k, kj.0, msg, num, ppl) {
                            None => None,
                            Some(fe) => {
                                let j2 = spec_skip_ws(s, fe.1);
                                if j2 < s.len() && s[j2] == '}' {
                                    match fe.0 {
                                        (
                                            Some(m),
                                            Some(nn),
                                            Some(pp),
                                        ) => Some(
                                            (
                                                AstrosView { message: m, number: nn, people: pp },
                                                j2 + 1,
                                            ),
                                        ),
                                        _ => None,
                                    }
                                } else if j2 < s.len() && s[j2] == ',' {
                                    let m2 = spec_skip_ws(s, j2 + 1);
                                    if i < m2 <= s.len() {
                                        spec_astros_members(s, m2, fe.0.0, fe.0.1, fe.0.2)
                                    } else {
                                        None
                                    }
                                } else {
                                    None
                                }
                            },
                        }
                    }
                }
            },
        }
    }
}

/// An astros object at `i`.
pub open spec fn spec_parse_astros(s: Seq<char>, i: int) -> Option<(AstrosView, int)> {
    if 0 <= i < s.len() && s[i] == '{' {
        let j = spec_skip_ws(s, i + 1);
        spec_astros_members(s, j, None, None, None)
    } else {
        None
    }
}

/// A whole document holding one astros object: leading and trailing
/// whitespace, nothing more.
pub open spec fn spec_parse_astros_doc(s: Seq<char>) -> Option<AstrosView> {
    let i = spec_skip_ws(s, 0);
    match spec_parse_astros(s, i) {
        None => None,
        Some(aj) => {
            let e = spec_skip_ws(s, aj.1);
            if e == s.len() {
                Some(aj.0)
            } else {
                None
            }
        },
    }
}

fn astros_field(
    s: &str,
    k: usize,
    n: usize,
    key: &String,
    msg: Option<String>,
    num: Option<i32>,
    ppl: Option<Vec<Person>>,
) -> (r: Option<((Option<String>, Option<i32>, Option<Vec<Person>>), usize)>)
    requires
        n == s@.len(),
        k <= n,
    ensures
        match r {
            Some(fe) => spec_astros_field(
                s@,
                k as int,
                key@,
                msg.deep_view(),
                opt_int_view(num),
                ppl.deep_view(),
            ) == Some(((fe.0.0.deep_view(), opt_int_view(fe.0.1), fe.0.2.deep_view()), fe.1 as int))
                && k < fe.1 <= n,
            None => spec_astros_field(
                s@,
                k as int,
                key@,
                msg.deep_view(),
                opt_int_view(num),
                ppl.deep_view(),
            ) is None,
        },
{
    if *key == String::from_str("message") {
        if msg.is_some() {
            None
        } else {
            match parse_string(s, k, n) {
                Some((v, ve)) => Some(((Some(v), num, ppl), ve)),
                None => None,
            }
        }
    } else if *key == String::from_str("number") {
        if num.is_some() {
            None
        } else {
            match parse_int(s, k, n) {
                Some((v, ve)) => if -2147483648i64 <= v && v <= 2147483647i64 {
                    Some(((msg, Some(v as i32), ppl), ve))
                } else {
                    None
                },
                None => None,
            }
        }
    } else if *key == String::from_str("people") {
        if ppl.is_some() {
            None
        } else {
            match parse_people(s, k, n) {
                Some((v, ve)) => Some(((msg, num, Some(v)), ve)),
                None => None,
            }
        }
    } else {
        match skip_value(s, k, n) {
            Some(e) => Some(((msg, num, ppl), e)),
            None => None,
        }
    }
}

fn astros_members(
    s: &str,
    i: usize,
    n: usize,
    msg: Option<String>,
    num: Option<i32>,
    ppl: Option<Vec<Person>>,
) -> (r: Option<(Astros, usize)>)
    requires
        n == s@.len(),
        i <= n,
    ensures
        match r {
            Some(aj) => spec_astros_members(
                s@,
                i as int,
                msg.deep_view(),
                opt_int_view(num),
                ppl.deep_view(),
            ) == Some((aj.0@, aj.1 as int)) && i < aj.1 <= n,
            None => spec_astros_members(
                s@,
                i as int,
                msg.deep_view(),
                opt_int_view(num),
                ppl.deep_view(),
            ) is None,
        },
    decreases n - i,
{
    match parse_string(s, i, n) {
        None => None,
        Some((key, ke)) => {
            let j1 = skip_ws(s, ke, n);
            if !(j1 < n && s.get_char(j1) == ':') {
                None
            } else {
                let k = skip_ws(s, j1 + 1, n);
                if !(i < k && k <= n) {
                    return None;
                }
                match astros_field(s, k, n, &key, msg, num, ppl) {
                    None => None,
                    Some(((msg2, num2, ppl2), ve)) => {
                        let j2 = skip_ws(s, ve, n);
                        if j2 < n && s.get_char(j2) == '}' {
                            match (msg2, num2, ppl2) {
                                (Some(m), Some(nn), Some(pp)) => Some(
                                    (Astros { message: m, number: nn, people: pp }, j2 + 1),
                                ),
                                _ => None,
                            }
                        } else if j2 < n && s.get_char(j2) == ',' {
                            let m2 = skip_ws(s, j2 + 1, n);
                            if i < m2 && m2 <= n {
                                astros_members(s, m2, n, msg2, num2, ppl2)
                            } else {
                                None
                            }
                        } else {
                            None
                        }
                    },
                }
            }
        },
    }
}

fn parse_astros(s: &str, i: usize, n: usize) -> (r: Option<(Astros, usize)>)
    requires
        n == s@.len(),
        i <= n,
    ensures
        match r {
            Some(aj) => spec_parse_astros(s@, i as int) == Some((aj.0@, aj.1 as int)) && i < aj.1
                <= n,
            None => spec_parse_astros(s@, i as int) is None,
        },
{
    if i < n && s.get_char(i) == '{' {
        let j = skip_ws(s, i + 1, n);
        astros_members(s, j, n, None, None, None)
    } else {
        None
    }
}

/// Parses a whole document holding one astros object.
pub(crate) fn parse_astros_doc(s: &str) -> (r: Option<Astros>)
    ensures
        match r {
            Some(a) => spec_parse_astros_doc(s@) == Some(a@),
            None => spec_parse_astros_doc(s@) is None,
        },
{
    let n = s.unicode_len();
    let i = skip_ws(s, 0, n);
    match parse_astros(s, i, n) {
        None => None,
        Some((a, j)) => {
            let e = skip_ws(s, j, n);
            if e == n {
                Some(a)
            } else {
                None
            }
        },
    }
}

// ------------------------------------------------------------------
// ISS position reports
// ------------------------------------------------------------------

pub open spec fn opt_pair_view(o: Option<(String, String)>) -> Option<(Seq<char>, Seq<char>)> {
    match o {
        Some(p) => Some((p.0@, p.1@)),
        None => None,
    }
}

/// Members of an `iss_position` object, positioned at a key: the two
/// coordinate strings.
pub open spec fn spec_position_members(
    s: Seq<char>,
    i: int,
    lat: Option<Seq<char>>,
    lon: Option<Seq<char>>,
) -> Option<((Seq<char>, Seq<char>), int)>
    decreases s.len() - i,
{
    if !(0 <= i <= s.len()) {
        None
    } else {
        match spec_parse_string(s, i) {
            None => None,
            Some(kj) => {
                let j1 = spec_skip_ws(s, kj.1);
                if !(j1 < s.len() && s[j1] == ':') {
                    None
                } else {
                    let k = spec_skip_ws(s, j1 + 1);
                    if !(i < k <= s.len()) {
                        None
                    } else {
                        let upd: Option<(Option<Seq<char>>, Option<Seq<char>>, int)> = if kj.0
                            == "latitude"@ {
                            if lat is Some {
                                None
                            } else {
                                match spec_parse_string(s, k) {
                                    Some(cj) => Some((Some(cj.0), lon, cj.1)),
                                    None => None,
                                }
                            }
                        } else if kj.0 == "longitude"@ {
                            if lon is Some {
                                None
                            } else {
                                match spec_parse_string(s, k) {
                                    Some(cj) => Some((lat, Some(cj.0), cj.1)),
                                    None => None,
                                }
                            }
                        } else {
                            match spec_skip_value(s, k) {
                                Some(e) => Some((lat, lon, e)),
                                None => None,
                            }
                        };
                        match upd {
                            None => None,
                            Some(st) => {
                                let j2 = spec_skip_ws(s, st.2);
                                if j2 < s.len() && s[j2] == '}' {
                                    match (st.0, st.1) {
                                        (Some(la), Some(lo)) => Some(((la, lo), j2 + 1)),
                                        _ => None,
                                    }
                                } else if j2 < s.len() && s[j2] == ',' {
                                    let m = spec_skip_ws(s, j2 + 1);
                                    if i < m <= s.len() {
                                        spec_position_members(s, m, st.0, st.1)
                                    } else {
                                        None
                                    }
                                } else {
                                    None
                                }
                            },
                        }
                    }
                }
            },
        }
    }
}

/// An `iss_position` object at `i`.
pub open spec fn spec_parse_position(s: Seq<char>, i: int) -> Option<((Seq<char>, Seq<char>), int)> {
    if 0 <= i < s.len() && s[i] == '{' {
        let j = spec_skip_ws(s, i + 1);
        spec_position_members(s, j, None, None)
    } else {
        None
    }
}

fn position_members(
    s: &str,
    i: usize,
    n: usize,
    lat: Option<String>,
    lon: Option<String>,
) -> (r: Option<((String, String), usize)>)
    requires
        n == s@.len(),
        i <= n,
    ensures
        match r {
            Some(pj) => spec_position_members(s@, i as int, lat.deep_view(), lon.deep_view())
                == Some(((pj.0.0@, pj.0.1@), pj.1 as int)) && i < pj.1 <= n,
            None => spec_position_members(s@, i as int, lat.deep_view(), lon.deep_view()) is None,
        },
    decreases n - i,
{
    match parse_string(s, i, n) {
        None => None,
        Some((key, ke)) => {
            let j1 = skip_ws(s, ke, n);
            if !(j1 < n && s.get_char(j1) == ':') {
                None
            } else {
                let k = skip_ws(s, j1 + 1, n);
                if !(i < k && k <= n) {
                    return None;
                }
                let upd: Option<(Option<String>, Option<String>, usize)> = if key
                    == String::from_str("latitude") {
                    if lat.is_some() {
                        None
                    } else {
                        match parse_string(s, k, n) {
                            Some((v, ve)) => Some((Some(v), lon, ve)),
                            None => None,
                        }
                    }
                } else if key == String::from_str("longitude") {
                    if lon.is_some() {
                        None
                    } else {
                        match parse_string(s, k, n) {
                            Some((v, ve)) => Some((lat, Some(v), ve)),
                            None => None,
                        }
                    }
                } else {
                    match skip_value(s, k, n) {
                        Some(e) => Some((lat, lon, e)),
                        None => None,
                    }
                };
                match upd {
                    None => None,
                    Some((lat2, lon2, ve)) => {
                        let j2 = skip_ws(s, ve, n);
                        if j2 < n && s.get_char(j2) == '}' {
                            match (lat2, lon2) {
                                (Some(la), Some(lo)) => Some(((la, lo), j2 + 1)),
                                _ => None,
                            }
                        } else if j2 < n && s.get_char(j2) == ',' {
                            let m = skip_ws(s, j2 + 1, n);
                            if i < m && m <= n {
                                position_members(s, m, n, lat2, lon2)
                            } else {
                                None
                            }
                        } else {
                            None
                        }
                    },
                }
            }
        },
    }
}

fn parse_position(s: &str, i: usize, n: usize) -> (r: Option<((String, String), usize)>)
    requires
        n == s@.len(),
        i <= n,
    ensures
        match r {
            Some(pj) => spec_parse_position(s@, i as int) == Some(
                ((pj.0.0@, pj.0.1@), pj.1 as int),
            ) && i < pj.1 <= n,
            None => spec_parse_position(s@, i as int) is None,
        },
{
    if i < n && s.get_char(i) == '{' {
        let j = skip_ws(s, i + 1, n);
        position_members(s, j, n, None, None)
    } else {
        None
    }
}

/// The value under one key of an ISS position report: `message` is a
/// string, `timestamp` an integer, `iss_position` an object with the two
/// coordinate strings; any other key is skipped.
pub open spec fn spec_iss_now_field(
    s: Seq<char>,
    k: int,
    key: Seq<char>,
    msg: Option<Seq<char>>,
    ts: Option<int>,
    pos: Option<(Seq<char>, Seq<char>)>,
) -> Option<((Option<Seq<char>>, Option<int>, Option<(Seq<char>, Seq<char>)>), int)> {
    if key == "message"@ {
        if msg is Some {
            None
        } else {
            match spec_parse_string(s, k) {
                Some(cj) => Some(((Some(cj.0), ts, pos), cj.1)),
                None => None,
            }
        }
    } else if key == "timestamp"@ {
        if ts is Some {
            None
        } else {
            match spec_parse_int(s, k) {
                Some(vj) => Some(((msg, Some(vj.0), pos), vj.1)),
                None => None,
            }
        }
    } else if key == "iss_position"@ {
        if pos is Some {
            None
        } else {
            match spec_parse_position(s, k) {
                Some(pj) => Some(((msg, ts, Some(pj.0)), pj.1)),
                None => None,
            }
        }
    } else {
        match spec_skip_value(s, k) {
            Some(e) => Some(((msg, ts, pos), e)),
            None => None,
        }
    }
}

/// Members of an ISS position report, positioned at a key.
pub open spec fn spec_iss_now_members(
    s: Seq<char>,
    i: int,
    msg: Option<Seq<char>>,
    ts: Option<int>,
    pos: Option<(Seq<char>, Seq<char>)>,
) -> Option<(IssNowView, int)>
    decreases s.len() - i,
{
    if !(0 <= i <= s.len()) {
        None
    } else {
        match spec_parse_string(s, i) {
            None => None,
            Some(kj) => {
                let j1 = spec_skip_ws(s, kj.1);
                if !(j1 < s.len() && s[j1] == ':') {
                    None
                } else {
                    let k = spec_skip_ws(s, j1 + 1);
                    if !(i < k <= s.len()) {
                        None
                    } else {
                        match spec_iss_now_field(s, k, kj.0, msg, ts, pos) {
                            None => None,
                            Some(fe) => {
                                let j2 = spec_skip_ws(s, fe.1);
                                if j2 < s.len() && s[j2] == '}' {
                                    match fe.0 {
                                        (
                                            Some(m),
                                            Some(t),
                                            Some(p),
                                        ) => Some(
                                            (
                                                IssNowView {
                                                    message: m,
                                                    timestamp: t,
                                                    latitude: p.0,
                                                    longitude: p.1,
                                                },
                                                j2 + 1,
                                            ),
                                        ),
                                        _ => None,
                                    }
                                } else if j2 < s.len() && s[j2] == ',' {
                                    let m2 = spec_skip_ws(s, j2 + 1);
                                    if i < m2 <= s.len() {
                                        spec_iss_now_members(s, m2, fe.0.0, fe.0.1, fe.0.2)
                                    } else {
                                        None
                                    }
                                } else {
                                    None
                                }
                            },
                        }
                    }
                }
            },
        }
    }
}

/// An ISS position report object at `i`.
pub open spec fn spec_parse_iss_now(s: Seq<char>, i: int) -> Option<(IssNowView, int)> {
    if 0 <= i < s.len() && s[i] == '{' {
        let j = spec_skip_ws(s, i + 1);
        spec_iss_now_members(s, j, None, None, None)
    } else {
        None
    }
}

/// A whole document holding one ISS position report.
pub open spec fn spec_parse_iss_now_doc(s: Seq<char>) -> Option<IssNowView> {
    let i = spec_skip_ws(s, 0);
    match spec_parse_iss_now(s, i) {
        None => None,
        Some(aj) => {
            let e = spec_skip_ws(s, aj.1);
            if e == s.len() {
                Some(aj.0)
            } else {
                None
            }
        },
    }
}

fn iss_now_field(
    s: &str,
    k: usize,
    n: usize,
    key: &String,
    msg: Option<String>,
    ts: Option<i64>,
    pos: Option<(String, String)>,
) -> (r: Option<((Option<String>, Option<i64>, Option<(String, String)>), usize)>)
    requires
        n == s@.len(),
        k <= n,
    ensures
        match r {
            Some(fe) => spec_iss_now_field(
                s@,
                k as int,
                key@,
                msg.deep_view(),
                opt_i64_view(ts),
                opt_pair_view(pos),
            ) == Some(
                ((fe.0.0.deep_view(), opt_i64_view(fe.0.1), opt_pair_view(fe.0.2)), fe.1 as int),
            ) && k < fe.1 <= n,
            None => spec_iss_now_field(
                s@,
                k as int,
                key@,
                msg.deep_view(),
                opt_i64_view(ts),
                opt_pair_view(pos),
            ) is None,
        },
{
    if *key == String::from_str("message") {
        if msg.is_some() {
            None
        } else {
            match parse_string(s, k, n) {
                Some((v, ve)) => Some(((Some(v), ts, pos), ve)),
                None => None,
            }
        }
    } else if *key == String::from_str("timestamp") {
        if ts.is_some() {
            None
        } else {
            match parse_int(s, k, n) {
                Some((v, ve)) => Some(((msg, Some(v), pos), ve)),
                None => None,
            }
        }
    } else if *key == String::from_str("iss_position") {
        if pos.is_some() {
            None
        } else {
            match parse_position(s, k, n) {
                Some((p, ve)) => Some(((msg, ts, Some(p)), ve)),
                None => None,
            }
        }
    } else {
        match skip_value(s, k, n) {
            Some(e) => Some(((msg, ts, pos), e)),
            None => None,
        }
    }
}

fn iss_now_members(
    s: &str,
    i: usize,
    n: usize,
    msg: Option<String>,
    ts: Option<i64>,
    pos: Option<(String, String)>,
) -> (r: Option<(IssNow, usize)>)
    requires
        n == s@.len(),
        i <= n,
    ensures
        match r {
            Some(aj) => spec_iss_now_members(
                s@,
                i as int,
                msg.deep_view(),
                opt_i64_view(ts),
                opt_pair_view(pos),
            ) == Some((aj.0@, aj.1 as int)) && i < aj.1 <= n,
            None => spec_iss_now_members(
                s@,
                i as int,
                msg.deep_view(),
                opt_i64_view(ts),
                opt_pair_view(pos),
            ) is None,
        },
    decreases n - i,
{
    match parse_string(s, i, n) {
        None => None,
        Some((key, ke)) => {
            let j1 = skip_ws(s, ke, n);
            if !(j1 < n && s.get_char(j1) == ':') {
                None
            } else {
                let k = skip_ws(s, j1 + 1, n);
                if !(i < k && k <= n) {
                    return None;
                }
                match iss_now_field(s, k, n, &key, msg, ts, pos) {
                    None => None,
                    Some(((msg2, ts2, pos2), ve)) => {
                        let j2 = skip_ws(s, ve, n);
                        if j2 < n && s.get_char(j2) == '}' {
                            match (msg2, ts2, pos2) {
                                (Some(m), Some(t), Some(p)) => Some(
                                    (
                                        IssNow {
                                            message: m,
                                            timestamp: t,
                                            iss_position: IssPosition {
                                                latitude: p.0,
                                                longitude: p.1,
                                            },
                                        },
                                        j2 + 1,
                                    ),
                                ),
                                _ => None,
                            }
                        } else if j2 < n && s.get_char(j2) == ',' {
                            let m2 = skip_ws(s, j2 + 1, n);
                            if i < m2 && m2 <= n {
                                iss_now_members(s, m2, n, msg2, ts2, pos2)
                            } else {
                                None
                            }
                        } else {
                            None
                        }
                    },
                }
            }
        },
    }
}

fn parse_iss_now(s: &str, i: usize, n: usize) -> (r: Option<(IssNow, usize)>)
    requires
        n == s@.len(),
        i <= n,
    ensures
        match r {
            Some(aj) => spec_parse_iss_now(s@, i as int) == Some((aj.0@, aj.1 as int)) && i < aj.1
                <= n,
            None => spec_parse_iss_now(s@, i as int) is None,
        },
{
    if i < n && s.get_char(i) == '{' {
        let j = skip_ws(s, i + 1, n);
        iss_now_members(s, j, n, None, None, None)
    } else {
        None
    }
}

/// Parses a whole document holding one ISS position report.
pub(crate) fn parse_iss_now_doc(s: &str) -> (r: Option<IssNow>)
    ensures
        match r {
            Some(a) => spec_parse_iss_now_doc(s@) == Some(a@),
            None => spec_parse_iss_now_doc(s@) is None,
        },
{
    let n = s.unicode_len();
    let i = skip_ws(s, 0, n);
    match parse_iss_now(s, i, n) {
        None => None,
        Some((a, j)) => {
            let e = skip_ws(s, j, n);
            if e == n {
                Some(a)
            } else {
                None
            }
        },
    }
}

// ------------------------------------------------------------------
// Pass predictions
// ------------------------------------------------------------------

/// Members of one pass object, positioned at a key: `risetime` and
/// `duration`, both integers.
pub open spec fn spec_pass_members(
    s: Seq<char>,
    i: int,
    rise: Option<int>,
    dur: Option<int>,
) -> Option<(IssPassTimeView, int)>
    decreases s.len() - i,
{
    if !(0 <= i <= s.len()) {
        None
    } else {
        match spec_parse_string(s, i) {
            None => None,
            Some(kj) => {
                let j1 = spec_skip_ws(s, kj.1);
                if !(j1 < s.len() && s[j1] == ':') {
                    None
                } else {
                    let k = spec_skip_ws(s, j1 + 1);
                    if !(i < k <= s.len()) {
                        None
                    } else {
                        let upd: Option<(Option<int>, Option<int>, int)> = if kj.0
                            == "risetime"@ {
                            if rise is Some {
                                None
                            } else {
                                match spec_parse_int(s, k) {
                                    Some(vj) => Some((Some(vj.0), dur, vj.1)),
                                    None => None,
                                }
                            }
                        } else if kj.0 == "duration"@ {
                            if dur is Some {
                                None
                            } else {
                                match spec_parse_int(s, k) {
                                    Some(vj) => Some((rise, Some(vj.0), vj.1)),
                                    None => None,
                                }
                            }
                        } else {
                            match spec_skip_value(s, k) {
                                Some(e) => Some((rise, dur, e)),
                                None => None,
                            }
                        };
                        match upd {
                            None => None,
                            Some(st) => {
                                let j2 = spec_skip_ws(s, st.2);
                                if j2 < s.len() && s[j2] == '}' {
                                    match (st.0, st.1) {
                                        (
                                            Some(rt),
                                            Some(du),
                                        ) => Some(
                                            (IssPassTimeView { risetime: rt, duration: du }, j2 + 1),
                                        ),
                                        _ => None,
                                    }
                                } else if j2 < s.len() && s[j2] == ',' {
                                    let m = spec_skip_ws(s, j2 + 1);
                                    if i < m <= s.len() {
                                        spec_pass_members(s, m, st.0, st.1)
                                    } else {
                                        None
                                    }
                                } else {
                                    None
                                }
                            },
                        }
                    }
                }
            },
        }
    }
}

/// One pass object at `i`.
pub open spec fn spec_parse_pass(s: Seq<char>, i: int) -> Option<(IssPassTimeView, int)> {
    if 0 <= i < s.len() && s[i] == '{' {
        let j = spec_skip_ws(s, i + 1);
        spec_pass_members(s, j, None, None)
    } else {
        None
    }
}

/// Items of a pass array, positioned at an item.
pub open spec fn spec_pass_items(s: Seq<char>, i: int, acc: Seq<IssPassTimeView>) -> Option<
    (Seq<IssPassTimeView>, int),
>
    decreases s.len() - i,
{
    if !(0 <= i <= s.len()) {
        None
    } else {
        match spec_parse_pass(s, i) {
            None => None,
            Some(pj) => {
                let j = spec_skip_ws(s, pj.1);
                if j < s.len() && s[j] == ']' {
                    Some((acc.push(pj.0), j + 1))
                } else if j < s.len() && s[j] == ',' {
                    let m = spec_skip_ws(s, j + 1);
                    if i < m <= s.len() {
                        spec_pass_items(s, m, acc.push(pj.0))
                    } else {
                        None
                    }
                } else {
                    None
                }
            },
        }
    }
}

/// A pass array at `i`.
pub open spec fn spec_parse_passes(s: Seq<char>, i: int) -> Option<(Seq<IssPassTimeView>, int)> {
    if 0 <= i < s.len() && s[i] == '[' {
        let j = spec_skip_ws(s, i + 1);
        if j < s.len() && s[j] == ']' {
            Some((Seq::empty(), j + 1))
        } else {
            spec_pass_items(s, j, Seq::empty())
        }
    } else {
        None
    }
}

fn pass_members(s: &str, i: usize, n: usize, rise: Option<i64>, dur: Option<i64>) -> (r: Option<
    (IssPassTime, usize),
>)
    requires
        n == s@.len(),
        i <= n,
    ensures
        match r {
            Some(pj) => spec_pass_members(s@, i as int, opt_i64_view(rise), opt_i64_view(dur))
                == Some((pj.0@, pj.1 as int)) && i < pj.1 <= n,
            None => spec_pass_members(s@, i as int, opt_i64_view(rise), opt_i64_view(dur)) is None,
        },
    decreases n - i,
{
    match parse_string(s, i, n) {
        None => None,
        Some((key, ke)) => {
            let j1 = skip_ws(s, ke, n);
            if !(j1 < n && s.get_char(j1) == ':') {
                None
            } else {
                let k = skip_ws(s, j1 + 1, n);
                if !(i < k && k <= n) {
                    return None;
                }
                let upd: Option<(Option<i64>, Option<i64>, usize)> = if key == String::from_str(
                    "risetime",
                ) {
                    if rise.is_some() {
                        None
                    } else {
                        match parse_int(s, k, n) {
                            Some((v, ve)) => Some((Some(v), dur, ve)),
                            None => None,
                        }
                    }
                } else if key == String::from_str("duration") {
                    if dur.is_some() {
                        None
                    } else {
                        match parse_int(s, k, n) {
                            Some((v, ve)) => Some((rise, Some(v), ve)),
                            None => None,
                        }
                    }
                } else {
                    match skip_value(s, k, n) {
                        Some(e) => Some((rise, dur, e)),
                        None => None,
                    }
                };
                match upd {
                    None => None,
                    Some((rise2, dur2, ve)) => {
                        let j2 = skip_ws(s, ve, n);
                        if j2 < n && s.get_char(j2) == '}' {
                            match (rise2, dur2) {
                                (Some(rt), Some(du)) => Some(
                                    (IssPassTime { risetime: rt, duration: du }, j2 + 1),
                                ),
                                _ => None,
                            }
                        } else if j2 < n && s.get_char(j2) == ',' {
                            let m = skip_ws(s, j2 + 1, n);
                            if i < m && m <= n {
                                pass_members(s, m, n, rise2, dur2)
                            } else {
                                None
                            }
                        } else {
                            None
                        }
                    },
                }
            }
        },
    }
}

fn parse_pass(s: &str, i: usize, n: usize) -> (r: Option<(IssPassTime, usize)>)
    requires
        n == s@.len(),
        i <= n,
    ensures
        match r {
            Some(pj) => spec_parse_pass(s@, i as int) == Some((pj.0@, pj.1 as int)) && i < pj.1
                <= n,
            None => spec_parse_pass(s@, i as int) is None,
        },
{
    if i < n && s.get_char(i) == '{' {
        let j = skip_ws(s, i + 1, n);
        pass_members(s, j, n, None, None)
    } else {
        None
    }
}

fn pass_items(s: &str, i: usize, n: usize, acc: Vec<IssPassTime>) -> (r: Option<
    (Vec<IssPassTime>, usize),
>)
    requires
        n == s@.len(),
        i <= n,
    ensures
        match r {
            Some(vj) => spec_pass_items(s@, i as int, acc.deep_view()) == Some(
                (vj.0.deep_view(), vj.1 as int),
            ) && i < vj.1 <= n,
            None => spec_pass_items(s@, i as int, acc.deep_view()) is None,
        },
    decreases n - i,
{
    match parse_pass(s, i, n) {
        None => None,
        Some((p, pe)) => {
            let ghost accv = acc.deep_view();
            let ghost pv = p@;
            let j = skip_ws(s, pe, n);
            if j < n && s.get_char(j) == ']' {
                let mut acc2 = acc;
                acc2.push(p);
                proof {
                    assert(acc2.deep_view() =~= accv.push(pv));
                }
                Some((acc2, j + 1))
            } else if j < n && s.get_char(j) == ',' {
                let m = skip_ws(s, j + 1, n);
                if i < m && m <= n {
                    let mut acc2 = acc;
                    acc2.push(p);
                    proof {
                        assert(acc2.deep_view() =~= accv.push(pv));
                    }
                    pass_items(s, m, n, acc2)
                } else {
                    None
                }
            } else {
                None
            }
        },
    }
}

fn parse_passes(s: &str, i: usize, n: usize) -> (r: Option<(Vec<IssPassTime>, usize)>)
    requires
        n == s@.len(),
        i <= n,
    ensures
        match r {
            Some(vj) => spec_parse_passes(s@, i as int) == Some((vj.0.deep_view(), vj.1 as int))
                && i < vj.1 <= n,
            None => spec_parse_passes(s@, i as int) is None,
        },
{
    if i < n && s.get_char(i) == '[' {
        let j = skip_ws(s, i + 1, n);
        if j < n && s.get_char(j) == ']' {
            let empty: Vec<IssPassTime> = Vec::new();
            proof {
                assert(empty.deep_view() =~= Seq::<IssPassTimeView>::empty());
            }
            Some((empty, j + 1))
        } else {
            let empty: Vec<IssPassTime> = Vec::new();
            proof {
                assert(empty.deep_view() =~= Seq::<IssPassTimeView>::empty());
            }
            pass_items(s, j, n, empty)
        }
    } else {
        None
    }
}

/// The value under one key of a pass-times reply: `message` and `reason`
/// are strings, `response` an array of pass objects; any other key
/// (including the echoed `request`) is skipped.
pub open spec fn spec_pass_times_field(
    s: Seq<char>,
    k: int,
    key: Seq<char>,
    msg: Option<Seq<char>>,
    rsn: Option<Seq<char>>,
    resp: Option<Seq<IssPassTimeView>>,
) -> Option<((Option<Seq<char>>, Option<Seq<char>>, Option<Seq<IssPassTimeView>>), int)> {
    if key == "message"@ {
        if msg is Some {
            None
        } else {
            match spec_parse_string(s, k) {
                Some(cj) => Some(((Some(cj.0), rsn, resp), cj.1)),
                None => None,
            }
        }
    } else if key == "reason"@ {
        if rsn is Some {
            None
        } else {
            match spec_parse_string(s, k) {
                Some(cj) => Some(((msg, Some(cj.0), resp), cj.1)),
                None => None,
            }
        }
    } else if key == "response"@ {
        if resp is Some {
            None
        } else {
            match spec_parse_passes(s, k) {
                Some(pj) => Some(((msg, rsn, Some(pj.0)), pj.1)),
                None => None,
            }
        }
    } else {
        match spec_skip_value(s, k) {
            Some(e) => Some(((msg, rsn, resp), e)),
            None => None,
        }
    }
}

/// Members of a pass-times reply, positioned at a key. `message` is
/// required; a missing `reason` defaults to the empty string and a missing
/// `response` to the empty list.
pub open spec fn spec_pass_times_members(
    s: Seq<char>,
    i: int,
    msg: Option<Seq<char>>,
    rsn: Option<Seq<char>>,
    resp: Option<Seq<IssPassTimeView>>,
) -> Option<(IssPassTimesView, int)>
    decreases s.len() - i,
{
    if !(0 <= i <= s.len()) {
        None
    } else {
        match spec_parse_string(s, i) {
            None => None,
            Some(kj) => {
                let j1 = spec_skip_ws(s, kj.1);
                if !(j1 < s.len() && s[j1] == ':') {
                    None
                } else {
                    let k = spec_skip_ws(s, j1 + 1);
                    if !(i < k <= s.len()) {
                        None
                    } else {
                        match spec_pass_times_field(s, k, kj.0, msg, rsn, resp) {
                            None => None,
                            Some(fe) => {
                                let j2 = spec_skip_ws(s, fe.1);
                                if j2 < s.len() && s[j2] == '}' {
                                    match fe.0.0 {
                                        Some(m) => Some(
                                            (
                                                IssPassTimesView {
                                                    message: m,
                                                    reason: match fe.0.1 {
                                                        Some(x) => x,
                                                        None => Seq::empty(),
                                                    },
                                                    passes: match fe.0.2 {
                                                        Some(x) => x,
                                                        None => Seq::empty(),
                                                    },
                                                },
                                                j2 + 1,
                                            ),
                                        ),
                                        None => None,
                                    }
                                } else if j2 < s.len() && s[j2] == ',' {
                                    let m2 = spec_skip_ws(s, j2 + 1);
                                    if i < m2 <= s.len() {
                                        spec_pass_times_members(s, m2, fe.0.0, fe.0.1, fe.0.2)
                                    } else {
                                        None
                                    }
                                } else {
                                    None
                                }
                            },
                        }
                    }
                }
            },
        }
    }
}

/// A pass-times reply object at `i`.
pub open spec fn spec_parse_pass_times(s: Seq<char>, i: int) -> Option<(IssPassTimesView, int)> {
    if 0 <= i < s.len() && s[i] == '{' {
        let j = spec_skip_ws(s, i + 1);
        spec_pass_times_members(s, j, None, None, None)
    } else {
        None
    }
}

/// A whole document holding one pass-times reply.
pub open spec fn spec_parse_pass_times_doc(s: Seq<char>) -> Option<IssPassTimesView> {
    let i = spec_skip_ws(s, 0);
    match spec_parse_pass_times(s, i) {
        None => None,
        Some(aj) => {
            let e = spec_skip_ws(s, aj.1);
            if e == s.len() {
                Some(aj.0)
            } else {
                None
            }
        },
    }
}

fn pass_times_field(
    s: &str,
    k: usize,
    n: usize,
    key: &String,
    msg: Option<String>,
    rsn: Option<String>,
    resp: Option<Vec<IssPassTime>>,
) -> (r: Option<((Option<String>, Option<String>, Option<Vec<IssPassTime>>), usize)>)
    requires
        n == s@.len(),
        k <= n,
    ensures
        match r {
            Some(fe) => spec_pass_times_field(
                s@,
                k as int,
                key@,
                msg.deep_view(),
                rsn.deep_view(),
                resp.deep_view(),
            ) == Some(((fe.0.0.deep_view(), fe.0.1.deep_view(), fe.0.2.deep_view()), fe.1 as int))
                && k < fe.1 <= n,
            None => spec_pass_times_field(
                s@,
                k as int,
                key@,
                msg.deep_view(),
                rsn.deep_view(),
                resp.deep_view(),
            ) is None,
        },
{
    if *key == String::from_str("message") {
        if msg.is_some() {
            None
        } else {
            match parse_string(s, k, n) {
                Some((v, ve)) => Some(((Some(v), rsn, resp), ve)),
                None => None,
            }
        }
    } else if *key == String::from_str("reason") {
        if rsn.is_some() {
            None
        } else {
            match parse_string(s, k, n) {
                Some((v, ve)) => Some(((msg, Some(v), resp), ve)),
                None => None,
            }
        }
    } else if *key == String::from_str("response") {
        if resp.is_some() {
            None
        } else {
            match parse_passes(s, k, n) {
                Some((v, ve)) => Some(((msg, rsn, Some(v)), ve)),
                None => None,
            }
        }
    } else {
        match skip_value(s, k, n) {
            Some(e) => Some(((msg, rsn, resp), e)),
            None => None,
        }
    }
}

fn pass_times_members(
    s: &str,
    i: usize,
    n: usize,
    msg: Option<String>,
    rsn: Option<String>,
    resp: Option<Vec<IssPassTime>>,
) -> (r: Option<(IssPassTimes, usize)>)
    requires
        n == s@.len(),
        i <= n,
    ensures
        match r {
            Some(aj) => spec_pass_times_members(
                s@,
                i as int,
                msg.deep_view(),
                rsn.deep_view(),
                resp.deep_view(),
            ) == Some((aj.0@, aj.1 as int)) && i < aj.1 <= n,
            None => spec_pass_times_members(
                s@,
                i as int,
                msg.deep_view(),
                rsn.deep_view(),
                resp.deep_view(),
            ) is None,
        },
    decreases n - i,
{
    match parse_string(s, i, n) {
        None => None,
        Some((key, ke)) => {
            let j1 = skip_ws(s, ke, n);
            if !(j1 < n && s.get_char(j1) == ':') {
                None
            } else {
                let k = skip_ws(s, j1 + 1, n);
                if !(i < k && k <= n) {
                    return None;
                }
                match pass_times_field(s, k, n, &key, msg, rsn, resp) {
                    None => None,
                    Some(((msg2, rsn2, resp2), ve)) => {
                        let j2 = skip_ws(s, ve, n);
                        if j2 < n && s.get_char(j2) == '}' {
                            match msg2 {
                                Some(m) => {
                                    let reason = match rsn2 {
                                        Some(x) => x,
                                        None => String::new(),
                                    };
                                    let response = match resp2 {
                                        Some(x) => x,
                                        None => {
                                            let v: Vec<IssPassTime> = Vec::new();
                                            proof {
                                                assert(v.deep_view() =~= Seq::<
                                                    IssPassTimeView,
                                                >::empty());
                                            }
                                            v
                                        },
                                    };
                                    Some(
                                        (
                                            IssPassTimes { message: m, reason, response },
                                            j2 + 1,
                                        ),
                                    )
                                },
                                None => None,
                            }
                        } else if j2 < n && s.get_char(j2) == ',' {
                            let m2 = skip_ws(s, j2 + 1, n);
                            if i < m2 && m2 <= n {
                                pass_times_members(s, m2, n, msg2, rsn2, resp2)
                            } else {
                                None
                            }
                        } else {
                            None
                        }
                    },
                }
            }
        },
    }
}

fn parse_pass_times(s: &str, i: usize, n: usize) -> (r: Option<(IssPassTimes, usize)>)
    requires
        n == s@.len(),
        i <= n,
    ensures
        match r {
            Some(aj) => spec_parse_pass_times(s@, i as int) == Some((aj.0@, aj.1 as int)) && i
                < aj.1 <= n,
            None => spec_parse_pass_times(s@, i as int) is None,
        },
{
    if i < n && s.get_char(i) == '{' {
        let j = skip_ws(s, i + 1, n);
        pass_times_members(s, j, n, None, None, None)
    } else {
        None
    }
}

/// Parses a whole document holding one pass-times reply.
pub(crate) fn parse_pass_times_doc(s: &str) -> (r: Option<IssPassTimes>)
    ensures
        match r {
            Some(a) => spec_parse_pass_times_doc(s@) == Some(a@),
            None => spec_parse_pass_times_doc(s@) is None,
        },
{
    let n = s.unicode_len();
    let i = skip_ws(s, 0, n);
    match parse_pass_times(s, i, n) {
        None => None,
        Some((a, j)) => {
            let e = skip_ws(s, j, n);
            if e == n {
                Some(a)
            } else {
                None
            }
        },
    }
}

} // verus!
