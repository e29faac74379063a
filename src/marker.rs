use vstd::prelude::*;
use crate::id::new_id;
use crate::rational_time::RationalTime;

verus! {

/// A marker's colour: a palette name or any custom string.
#[derive(Debug, Clone, PartialEq, Eq, Hash)]
pub struct MarkerColor(String);

impl View for MarkerColor {
    type V = Seq<char>;

    closed spec fn view(&self) -> Seq<char> {
        self.0@
    }
}

impl MarkerColor {
    pub fn new(color: &str) -> (r: MarkerColor)
        ensures
            r@ == color@,
    {
        MarkerColor(color.to_owned())
    }

    pub fn as_str(&self) -> (r: &str)
        ensures
            r@ == self@,
    {
        self.0.as_str()
    }

    pub fn red() -> (r: MarkerColor)
        ensures
            r@ == "red"@,
    {
        MarkerColor::new("red")
    }

    pub fn green() -> (r: MarkerColor)
        ensures
            r@ == "green"@,
    {
        MarkerColor::new("green")
    }

    pub fn blue() -> (r: MarkerColor)
        ensures
            r@ == "blue"@,
    {
        MarkerColor::new("blue")
    }

    pub fn yellow() -> (r: MarkerColor)
        ensures
            r@ == "yellow"@,
    {
        MarkerColor::new("yellow")
    }

    pub fn orange() -> (r: MarkerColor)
        ensures
            r@ == "orange"@,
    {
        MarkerColor::new("orange")
    }

    pub fn purple() -> (r: MarkerColor)
        ensures
            r@ == "purple"@,
    {
        MarkerColor::new("purple")
    }
}

impl Default for MarkerColor {
    fn default() -> (r: MarkerColor)
        ensures
            r@ == "blue"@,
    {
        MarkerColor::blue()
    }
}

/// A named, coloured annotation at a point or over a span of the timeline.
#[derive(Debug, Clone, PartialEq)]
pub struct Marker {
    pub id: u128,
    pub name: String,
    pub color: MarkerColor,
    pub time: RationalTime,
    pub duration: Option<RationalTime>,
    pub comment: Option<String>,
}

impl Marker {
    /// A blue point marker with a fresh identifier.
    pub fn new(name: &str, time: RationalTime) -> (r: Marker)
        ensures
            r.name@ == name@,
            r.color@ == "blue"@,
            r.time == time,
            r.duration is None,
            r.comment is None,
    {
        Marker {
            id: new_id(),
            name: name.to_owned(),
            color: MarkerColor::default(),
            time,
            duration: None,
            comment: None,
        }
    }

    pub fn with_color(self, color: MarkerColor) -> (r: Marker)
        ensures
            r == (Marker { color, ..self }),
    {
        Marker { color, ..self }
    }

    pub fn with_duration(self, duration: RationalTime) -> (r: Marker)
        ensures
            r == (Marker { duration: Some(duration), ..self }),
    {
        Marker { duration: Some(duration), ..self }
    }

    pub fn with_comment(self, comment: &str) -> (r: Marker)
        ensures
            r.comment matches Some(c) && c@ == comment@,
            r == (Marker { comment: r.comment, ..self }),
    {
        Marker { comment: Some(comment.to_owned()), ..self }
    }
}

} // verus!
