//! Client-side data layer for the open-notify.org spaceflight telemetry API:
//! typed records for the people-in-space manifest, the current ISS position
//! and predicted ISS pass times, together with a verified JSON codec for the
//! wire shapes and semantic validation of each payload.
//!
//! Transport (performing the HTTP GET) is deliberately outside this crate;
//! callers hand the response body text to the `*_from_json` entry points and
//! receive either a validated value or one `OpenNotificationError`.

use vstd::prelude::*;

pub mod error;
pub mod json;
pub mod laws;
pub mod parse;
pub mod ser;

verus! {

use crate::error::OpenNotificationError;

/// Mathematical model of a [`Person`]: the two fields as character sequences.
pub struct PersonView {
    pub name: Seq<char>,
    pub craft: Seq<char>,
}

/// A person currently in space, together with the craft they are on.
#[derive(PartialEq)]
pub struct Person {
    pub(crate) name: String,
    pub(crate) craft: String,
}

impl View for Person {
    type V = PersonView;

    closed spec fn view(&self) -> PersonView {
        PersonView { name: self.name@, craft: self.craft@ }
    }
}

impl DeepView for Person {
    type V = PersonView;

    open spec fn deep_view(&self) -> PersonView {
        self.view()
    }
}

impl Person {
    pub fn new(name: &str, craft: &str) -> (p: Person)
        ensures
            p@.name == name@,
            p@.craft == craft@,
    {
        Person { name: String::from_str(name), craft: String::from_str(craft) }
    }

    pub fn name(&self) -> (r: &str)
        ensures
            r@ == self@.name,
    {
        self.name.as_str()
    }

    pub fn craft(&self) -> (r: &str)
        ensures
            r@ == self@.craft,
    {
        self.craft.as_str()
    }
}

/// Mathematical model of an [`Astros`] manifest.
pub struct AstrosView {
    pub message: Seq<char>,
    pub number: int,
    pub people: Seq<PersonView>,
}

/// The manifest of astronauts in space: a status message, the declared
/// count, and the list of people.
pub struct Astros {
    pub(crate) message: String,
    pub(crate) number: i32,
    pub(crate) people: Vec<Person>,
}

impl View for Astros {
    type V = AstrosView;

    closed spec fn view(&self) -> AstrosView {
        AstrosView {
            message: self.message@,
            number: self.number as int,
            people: self.people.deep_view(),
        }
    }
}

impl Astros {
    pub fn new(message: &str, number: i32, people: Vec<Person>) -> (a: Astros)
        ensures
            a@.message == message@,
            a@.number == number as int,
            a@.people.len() == people@.len(),
            forall|i: int| 0 <= i < people@.len() ==> a@.people[i] == people@[i]@,
    {
        Astros { message: String::from_str(message), number, people }
    }

    /// The value of the `message` field; the upstream service fills it with
    /// `"success"` when the payload is good.
    pub fn message(&self) -> (r: &str)
        ensures
            r@ == self@.message,
    {
        self.message.as_str()
    }

    /// The list of people in space.
    pub fn people(&self) -> (r: &Vec<Person>)
        ensures
            r@.len() == self@.people.len(),
            forall|i: int| 0 <= i < r@.len() ==> r@[i]@ == self@.people[i],
    {
        &self.people
    }
}

/// Mathematical model of an [`IssNow`] position report.
pub struct IssNowView {
    pub message: Seq<char>,
    pub timestamp: int,
    pub latitude: Seq<char>,
    pub longitude: Seq<char>,
}

/// The position of the ISS on the wire: a pair of decimal-string
/// coordinates, kept as text exactly as received.
pub(crate) struct IssPosition {
    pub(crate) latitude: String,
    pub(crate) longitude: String,
}

/// The current location of the ISS: a status message, the capture time and
/// the position.
pub struct IssNow {
    pub(crate) message: String,
    pub(crate) timestamp: i64,
    pub(crate) iss_position: IssPosition,
}

impl View for IssNow {
    type V = IssNowView;

    closed spec fn view(&self) -> IssNowView {
        IssNowView {
            message: self.message@,
            timestamp: self.timestamp as int,
            latitude: self.iss_position.latitude@,
            longitude: self.iss_position.longitude@,
        }
    }
}

impl IssNow {
    pub fn new(message: &str, timestamp: i64, latitude: &str, longitude: &str) -> (r: IssNow)
        ensures
            r@.message == message@,
            r@.timestamp == timestamp as int,
            r@.latitude == latitude@,
            r@.longitude == longitude@,
    {
        IssNow {
            message: String::from_str(message),
            timestamp,
            iss_position: IssPosition {
                latitude: String::from_str(latitude),
                longitude: String::from_str(longitude),
            },
        }
    }

    /// The value of the `message` field; the upstream service fills it with
    /// `"success"` when the payload is good.
    pub fn message(&self) -> (r: &str)
        ensures
            r@ == self@.message,
    {
        self.message.as_str()
    }

    /// The time, as a unix timestamp, at which the latitude and longitude
    /// were captured.
    pub fn timestamp(&self) -> (r: i64)
        ensures
            r as int == self@.timestamp,
    {
        self.timestamp
    }

    /// Latitude of the ISS, as the decimal string received from upstream.
    pub fn latitude(&self) -> (r: &str)
        ensures
            r@ == self@.latitude,
    {
        self.iss_position.latitude.as_str()
    }

    /// Longitude of the ISS, as the decimal string received from upstream.
    pub fn longitude(&self) -> (r: &str)
        ensures
            r@ == self@.longitude,
    {
        self.iss_position.longitude.as_str()
    }
}

/// Mathematical model of an [`IssPassTime`].
pub struct IssPassTimeView {
    pub risetime: int,
    pub duration: int,
}

/// One predicted overhead pass of the ISS.
pub struct IssPassTime {
    pub(crate) risetime: i64,
    pub(crate) duration: i64,
}

impl View for IssPassTime {
    type V = IssPassTimeView;

    closed spec fn view(&self) -> IssPassTimeView {
        IssPassTimeView { risetime: self.risetime as int, duration: self.duration as int }
    }
}

impl DeepView for IssPassTime {
    type V = IssPassTimeView;

    open spec fn deep_view(&self) -> IssPassTimeView {
        self.view()
    }
}

impl IssPassTime {
    pub fn new(risetime: i64, duration: i64) -> (r: IssPassTime)
        ensures
            r@.risetime == risetime as int,
            r@.duration == duration as int,
    {
        IssPassTime { risetime, duration }
    }

    /// Start of the pass, as a unix timestamp.
    pub fn rise(&self) -> (r: i64)
        ensures
            r as int == self@.risetime,
    {
        self.risetime
    }

    /// Length of the pass in seconds.
    pub fn duration(&self) -> (r: i64)
        ensures
            r as int == self@.duration,
    {
        self.duration
    }
}

/// Mathematical model of an [`IssPassTimes`] reply.
pub struct IssPassTimesView {
    pub message: Seq<char>,
    pub reason: Seq<char>,
    pub passes: Seq<IssPassTimeView>,
}

/// The reply to a pass-time request: a status message, an optional failure
/// reason (empty when upstream omitted it), and the predicted passes.
pub struct IssPassTimes {
    pub(crate) message: String,
    pub(crate) reason: String,
    pub(crate) response: Vec<IssPassTime>,
}

impl View for IssPassTimes {
    type V = IssPassTimesView;

    closed spec fn view(&self) -> IssPassTimesView {
        IssPassTimesView {
            message: self.message@,
            reason: self.reason@,
            passes: self.response.deep_view(),
        }
    }
}

impl IssPassTimes {
    pub fn new(message: &str, reason: &str, response: Vec<IssPassTime>) -> (r: IssPassTimes)
        ensures
            r@.message == message@,
            r@.reason == reason@,
            r@.passes.len() == response@.len(),
            forall|i: int| 0 <= i < response@.len() ==> r@.passes[i] == response@[i]@,
    {
        IssPassTimes {
            message: String::from_str(message),
            reason: String::from_str(reason),
            response,
        }
    }

    /// The predicted passes, in the order upstream returned them.
    pub fn passes(&self) -> (r: &[IssPassTime])
        ensures
            r@.len() == self@.passes.len(),
            forall|i: int| 0 <= i < r@.len() ==> r@[i]@ == self@.passes[i],
    {
        self.response.as_slice()
    }
}

// ------------------------------------------------------------------
// Validated entry points: parse a response body, then check the semantic
// invariants of the payload.
// ------------------------------------------------------------------

/// Parses an astronauts response body and validates it: the declared count
/// must match the length of the people list (checked first), and the status
/// message must be `"success"`. A body that does not parse gives a
/// `Parsing` error; a payload that fails validation gives a `Data` error.
pub fn astro_from_json(data: &str) -> (r: Result<Astros, OpenNotificationError>)
    ensures
        match parse::spec_parse_astros_doc(data@) {
            None => r matches Err(OpenNotificationError::Parsing(m)) && m@
                == "malformed astronauts payload"@,
            Some(a) => {
                if a.number != a.people.len() {
                    r matches Err(OpenNotificationError::Data(m)) && m@
                        == "attribute 'number' does not match length of people field"@
                } else if a.message != "success"@ {
                    r matches Err(OpenNotificationError::Data(m)) && m@
                        == "attribute message indicates no success but "@ + a.message
                } else {
                    r matches Ok(v) && v@ == a
                }
            },
        },
{
    match parse::parse_astros_doc(data) {
        None => Err(
            OpenNotificationError::Parsing(String::from_str("malformed astronauts payload")),
        ),
        Some(astros) => {
            if astros.number < 0 || (astros.number as usize) != astros.people.len() {
                return Err(
                    OpenNotificationError::Data(
                        String::from_str("attribute 'number' does not match length of people field"),
                    ),
                );
            }
            if !(astros.message == String::from_str("success")) {
                let detail = String::from_str("attribute message indicates no success but ").concat(
                    astros.message.as_str(),
                );
                return Err(OpenNotificationError::Data(detail));
            }
            Ok(astros)
        },
    }
}

/// Parses an ISS position response body and validates it: the status
/// message must be `"success"`.
pub fn iss_now_from_json(data: &str) -> (r: Result<IssNow, OpenNotificationError>)
    ensures
        match parse::spec_parse_iss_now_doc(data@) {
            None => r matches Err(OpenNotificationError::Parsing(m)) && m@
                == "malformed ISS position payload"@,
            Some(a) => {
                if a.message != "success"@ {
                    r matches Err(OpenNotificationError::Data(m)) && m@
                        == "attribute message indicates no success but "@ + a.message
                } else {
                    r matches Ok(v) && v@ == a
                }
            },
        },
{
    match parse::parse_iss_now_doc(data) {
        None => Err(
            OpenNotificationError::Parsing(String::from_str("malformed ISS position payload")),
        ),
        Some(iss_now) => {
            if !(iss_now.message == String::from_str("success")) {
                let detail = String::from_str("attribute message indicates no success but ").concat(
                    iss_now.message.as_str(),
                );
                return Err(OpenNotificationError::Data(detail));
            }
            Ok(iss_now)
        },
    }
}

/// Parses a pass-times response body and validates it: the status message
/// must be `"success"`. When it is not, the upstream `reason` field is the
/// error payload, verbatim (and empty when upstream omitted it).
pub fn iss_pass_times_from_json(data: &str) -> (r: Result<IssPassTimes, OpenNotificationError>)
    ensures
        match parse::spec_parse_pass_times_doc(data@) {
            None => r matches Err(OpenNotificationError::Parsing(m)) && m@
                == "malformed pass-times payload"@,
            Some(a) => {
                if a.message != "success"@ {
                    r matches Err(OpenNotificationError::Data(m)) && m@ == a.reason
                } else {
                    r matches Ok(v) && v@ == a
                }
            },
        },
{
    match parse::parse_pass_times_doc(data) {
        None => Err(
            OpenNotificationError::Parsing(String::from_str("malformed pass-times payload")),
        ),
        Some(pass_times) => {
            if !(pass_times.message == String::from_str("success")) {
                return Err(OpenNotificationError::Data(pass_times.reason));
            }
            Ok(pass_times)
        },
    }
}

} // verus!
