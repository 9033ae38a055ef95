//! Serialization half of the JSON codec: each record is written in a fixed
//! canonical form — keys in declaration order, no whitespace, strings raw.
//! Useful for building fixtures and for round-trip checks; none of the
//! fetch operations sends a body.
//!
//! String fields are emitted verbatim between quotes: the output is a JSON
//! document the parser accepts again exactly when every string field holds
//! only plain characters (see `json::is_plain_str_char`).

use vstd::prelude::*;

use crate::{Astros, IssNow, IssPassTime, IssPassTimes, Person};

verus! {

/// The decimal digit character for a value between 0 and 9.
pub open spec fn digit_char(d: int) -> char {
    if d == 0 {
        '0'
    } else if d == 1 {
        '1'
    } else if d == 2 {
        '2'
    } else if d == 3 {
        '3'
    } else if d == 4 {
        '4'
    } else if d == 5 {
        '5'
    } else if d == 6 {
        '6'
    } else if d == 7 {
        '7'
    } else if d == 8 {
        '8'
    } else {
        '9'
    }
}

/// Decimal digits of a non-negative value, most significant first.
pub open spec fn spec_ser_nat(v: int) -> Seq<char>
    decreases v,
{
    if v <= 9 {
        seq![digit_char(v)]
    } else {
        spec_ser_nat(v / 10) + seq![digit_char(v % 10)]
    }
}

/// Decimal form of an integer: a minus sign for negative values, then the
/// digits of the magnitude.
pub open spec fn spec_ser_int(v: int) -> Seq<char> {
    if v < 0 {
        seq!['-'] + spec_ser_nat(-v)
    } else {
        spec_ser_nat(v)
    }
}

pub open spec fn spec_ser_person(p: crate::PersonView) -> Seq<char> {
    "{\"name\":\""@ + p.name + "\",\"craft\":\""@ + p.craft + "\"}"@
}

/// The comma-separated items of a people array.
pub open spec fn spec_ser_people_items(ps: Seq<crate::PersonView>) -> Seq<char>
    decreases ps.len(),
{
    if ps.len() == 0 {
        Seq::empty()
    } else if ps.len() == 1 {
        spec_ser_person(ps[0])
    } else {
        spec_ser_person(ps[0]) + seq![','] + spec_ser_people_items(ps.drop_first())
    }
}

pub open spec fn spec_ser_astros(a: crate::AstrosView) -> Seq<char> {
    "{\"message\":\""@ + a.message + "\",\"number\":"@ + spec_ser_int(a.number) + ",\"people\":["@
        + spec_ser_people_items(a.people) + "]}"@
}

/// The inner `iss_position` object: the two coordinate strings.
pub open spec fn spec_ser_position(latitude: Seq<char>, longitude: Seq<char>) -> Seq<char> {
    "{\"latitude\":\""@ + latitude + "\",\"longitude\":\""@ + longitude + "\"}"@
}

pub open spec fn spec_ser_iss_now(v: crate::IssNowView) -> Seq<char> {
    "{\"message\":\""@ + v.message + "\",\"timestamp\":"@ + spec_ser_int(v.timestamp)
        + ",\"iss_position\":"@ + spec_ser_position(v.latitude, v.longitude) + "}"@
}

pub open spec fn spec_ser_pass(p: crate::IssPassTimeView) -> Seq<char> {
    "{\"risetime\":"@ + spec_ser_int(p.risetime) + ",\"duration\":"@ + spec_ser_int(p.duration)
        + "}"@
}

/// The comma-separated items of a pass array.
pub open spec fn spec_ser_pass_items(ps: Seq<crate::IssPassTimeView>) -> Seq<char>
    decreases ps.len(),
{
    if ps.len() == 0 {
        Seq::empty()
    } else if ps.len() == 1 {
        spec_ser_pass(ps[0])
    } else {
        spec_ser_pass(ps[0]) + seq![','] + spec_ser_pass_items(ps.drop_first())
    }
}

pub open spec fn spec_ser_pass_times(v: crate::IssPassTimesView) -> Seq<char> {
    "{\"message\":\""@ + v.message + "\",\"reason\":\""@ + v.reason + "\",\"response\":["@
        + spec_ser_pass_items(v.passes) + "]}"@
}

fn digit_str(d: u8) -> (r: &'static str)
    requires
        d <= 9,
    ensures
        r@ =~= seq![digit_char(d as int)],
{
    if d == 0 {
        proof {
            reveal_strlit("0");
        }
        "0"
    } else if d == 1 {
        proof {
            reveal_strlit("1");
        }
        "1"
    } else if d == 2 {
        proof {
            reveal_strlit("2");
        }
        "2"
    } else if d == 3 {
        proof {
            reveal_strlit("3");
        }
        "3"
    } else if d == 4 {
        proof {
            reveal_strlit("4");
        }
        "4"
    } else if d == 5 {
        proof {
            reveal_strlit("5");
        }
        "5"
    } else if d == 6 {
        proof {
            reveal_strlit("6");
        }
        "6"
    } else if d == 7 {
        proof {
            reveal_strlit("7");
        }
        "7"
    } else if d == 8 {
        proof {
            reveal_strlit("8");
        }
        "8"
    } else {
        proof {
            reveal_strlit("9");
        }
        "9"
    }
}

fn u64_to_string(v: u64) -> (r: String)
    ensures
        r@ == spec_ser_nat(v as int),
    decreases v,
{
    if v <= 9 {
        String::from_str(digit_str(v as u8))
    } else {
        let rest = u64_to_string(v / 10);
        rest.concat(digit_str((v % 10) as u8))
    }
}

fn i64_to_string(v: i64) -> (r: String)
    ensures
        r@ == spec_ser_int(v as int),
{
    if v >= 0 {
        u64_to_string(v as u64)
    } else {
        let mag: u64 = ((-(v + 1)) as u64) + 1;
        proof {
            reveal_strlit("-");
            assert("-"@ =~= seq!['-']);
        }
        let out = String::from_str("-").concat(u64_to_string(mag).as_str());
        proof {
            assert(out@ =~= spec_ser_int(v as int));
        }
        out
    }
}

impl Person {
    /// Writes the canonical wire form of this person.
    pub fn to_json(&self) -> (r: String)
        ensures
            r@ == spec_ser_person(self@),
    {
        let mut out = String::from_str("{\"name\":\"");
        out.append(self.name.as_str());
        out.append("\",\"craft\":\"");
        out.append(self.craft.as_str());
        out.append("\"}");
        proof {
            assert(out@ =~= spec_ser_person(self@));
        }
        out
    }
}

fn people_items_json(v: &Vec<Person>, k: usize) -> (r: String)
    requires
        k < v.len(),
    ensures
        r@ == spec_ser_people_items(v.deep_view().skip(k as int)),
    decreases v.len() - k,
{
    let mut out = v[k].to_json();
    if k + 1 < v.len() {
        proof {
            reveal_strlit(",");
            assert(","@ =~= seq![',']);
        }
        out.append(",");
        let rest = people_items_json(v, k + 1);
        out.append(rest.as_str());
        proof {
            assert(v.deep_view().skip(k as int).drop_first() =~= v.deep_view().skip(k + 1));
            assert(out@ =~= spec_ser_people_items(v.deep_view().skip(k as int)));
        }
    } else {
        proof {
            assert(v.deep_view().skip(k as int).len() == 1);
            assert(v.deep_view().skip(k as int)[0] == v.deep_view()[k as int]);
        }
    }
    out
}

impl Astros {
    /// Writes the canonical wire form of this manifest.
    pub fn to_json(&self) -> (r: String)
        ensures
            r@ == spec_ser_astros(self@),
    {
        let mut out = String::from_str("{\"message\":\"");
        out.append(self.message.as_str());
        out.append("\",\"number\":");
        let num = i64_to_string(self.number as i64);
        out.append(num.as_str());
        out.append(",\"people\":[");
        if self.people.len() > 0 {
            let items = people_items_json(&self.people, 0);
            out.append(items.as_str());
            proof {
                assert(self.people.deep_view().skip(0) =~= self.people.deep_view());
            }
        } else {
            proof {
                assert(self.people.deep_view().len() == 0);
            }
        }
        out.append("]}");
        proof {
            assert(out@ =~= spec_ser_astros(self@));
        }
        out
    }
}

impl IssNow {
    /// Writes the canonical wire form of this position report.
    pub fn to_json(&self) -> (r: String)
        ensures
            r@ == spec_ser_iss_now(self@),
    {
        let mut out = String::from_str("{\"message\":\"");
        out.append(self.message.as_str());
        out.append("\",\"timestamp\":");
        let ts = i64_to_string(self.timestamp);
        out.append(ts.as_str());
        out.append(",\"iss_position\":");
        out.append("{\"latitude\":\"");
        out.append(self.iss_position.latitude.as_str());
        out.append("\",\"longitude\":\"");
        out.append(self.iss_position.longitude.as_str());
        out.append("\"}");
        out.append("}");
        proof {
            assert(out@ =~= spec_ser_iss_now(self@));
        }
        out
    }
}

impl IssPassTime {
    /// Writes the canonical wire form of this pass.
    pub fn to_json(&self) -> (r: String)
        ensures
            r@ == spec_ser_pass(self@),
    {
        let mut out = String::from_str("{\"risetime\":");
        let rt = i64_to_string(self.risetime);
        out.append(rt.as_str());
        out.append(",\"duration\":");
        let du = i64_to_string(self.duration);
        out.append(du.as_str());
        out.append("}");
        proof {
            assert(out@ =~= spec_ser_pass(self@));
        }
        out
    }
}

fn pass_items_json(v: &Vec<IssPassTime>, k: usize) -> (r: String)
    requires
        k < v.len(),
    ensures
        r@ == spec_ser_pass_items(v.deep_view().skip(k as int)),
    decreases v.len() - k,
{
    let mut out = v[k].to_json();
    if k + 1 < v.len() {
        proof {
            reveal_strlit(",");
            assert(","@ =~= seq![',']);
        }
        out.append(",");
        let rest = pass_items_json(v, k + 1);
        out.append(rest.as_str());
        proof {
            assert(v.deep_view().skip(k as int).drop_first() =~= v.deep_view().skip(k + 1));
            assert(out@ =~= spec_ser_pass_items(v.deep_view().skip(k as int)));
        }
    } else {
        proof {
            assert(v.deep_view().skip(k as int).len() == 1);
            assert(v.deep_view().skip(k as int)[0] == v.deep_view()[k as int]);
        }
    }
    out
}

impl IssPassTimes {
    /// Writes the canonical wire form of this reply.
    pub fn to_json(&self) -> (r: String)
        ensures
            r@ == spec_ser_pass_times(self@),
    {
        let mut out = String::from_str("{\"message\":\"");
        out.append(self.message.as_str());
        out.append("\",\"reason\":\"");
        out.append(self.reason.as_str());
        out.append("\",\"response\":[");
        if self.response.len() > 0 {
            let items = pass_items_json(&self.response, 0);
            out.append(items.as_str());
            proof {
                assert(self.response.deep_view().skip(0) =~= self.response.deep_view());
            }
        } else {
            proof {
                assert(self.response.deep_view().len() == 0);
            }
        }
        out.append("]}");
        proof {
            assert(out@ =~= spec_ser_pass_times(self@));
        }
        out
    }
}

} // verus!
