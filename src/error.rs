use vstd::prelude::*;

use crate::colour::named_colour_code;

verus! {

/// What can go wrong while preparing a highlighting run.
#[derive(Debug)]
pub enum HighlightError {
    /// The pattern did not compile; `reason` is the regex engine's account of why.
    InvalidPattern { pattern: String, reason: String },
    /// The colour is neither a known name nor starts with `0x`.
    UnknownColour { colour: String },
    /// The colour starts with `0x` but is not one to six hex digits after it.
    InvalidHexLiteral { literal: String },
}

/// The valid colour names, as the unknown-colour message lists them.
pub open spec fn colour_list() -> Seq<char> {
    "red"@ + ", "@ + "green"@ + ", "@ + "blue"@ + ", "@ + "yellow"@ + ", "@ + "cyan"@ + ", "@
        + "magenta"@ + ", "@ + "white"@
}

/// The message for a colour that is neither named nor hex.
pub open spec fn unknown_colour_message(colour: Seq<char>) -> Seq<char> {
    "Unexpected colour '"@ + colour + "'. Available colours: "@ + colour_list()
}

/// The message that each error reads as.
pub open spec fn message_of(e: &HighlightError) -> Seq<char> {
    match e {
        HighlightError::InvalidPattern { pattern, reason } => "Invalid pattern '"@ + pattern@
            + "': "@ + reason@,
        HighlightError::UnknownColour { colour } => unknown_colour_message(colour@),
        HighlightError::InvalidHexLiteral { literal } => "Invalid hex colour '"@ + literal@
            + "': expected 0x followed by one to six hex digits"@,
    }
}

/// `needle` stands somewhere in `hay`.
pub open spec fn occurs_in(needle: Seq<char>, hay: Seq<char>) -> bool {
    exists|i: int|
        0 <= i && i + needle.len() <= hay.len() && #[trigger] hay.subrange(i, i + needle.len())
            == needle
}

proof fn lemma_occurs_self(x: Seq<char>)
    ensures
        occurs_in(x, x),
{
    let i: int = 0;
    assert(x.subrange(i, i + x.len()) =~= x);
}

proof fn lemma_occurs_left(x: Seq<char>, a: Seq<char>, h: Seq<char>)
    requires
        occurs_in(x, h),
    ensures
        occurs_in(x, a + h),
{
    let i = choose|i: int|
        0 <= i && i + x.len() <= h.len() && #[trigger] h.subrange(i, i + x.len()) == x;
    assert((a + h).subrange(a.len() + i, a.len() + i + x.len()) =~= h.subrange(i, i + x.len()));
}

proof fn lemma_occurs_right(x: Seq<char>, h: Seq<char>, b: Seq<char>)
    requires
        occurs_in(x, h),
    ensures
        occurs_in(x, h + b),
{
    let i = choose|i: int|
        0 <= i && i + x.len() <= h.len() && #[trigger] h.subrange(i, i + x.len()) == x;
    assert((h + b).subrange(i, i + x.len()) =~= h.subrange(i, i + x.len()));
}

/// Each colour name stands in the list of names.
proof fn lemma_listed(name: Seq<char>)
    requires
        named_colour_code(name) is Some,
    ensures
        occurs_in(name, colour_list()),
{
    // `pk` is the list up to and including its k-th piece (names and separators).
    let p0 = "red"@;
    let p1 = p0 + ", "@;
    let p2 = p1 + "green"@;
    let p3 = p2 + ", "@;
    let p4 = p3 + "blue"@;
    let p5 = p4 + ", "@;
    let p6 = p5 + "yellow"@;
    let p7 = p6 + ", "@;
    let p8 = p7 + "cyan"@;
    let p9 = p8 + ", "@;
    let p10 = p9 + "magenta"@;
    let p11 = p10 + ", "@;
    let p12 = p11 + "white"@;
    assert(p12 == colour_list());
    lemma_occurs_self(name);
    if name == "red"@ {
        lemma_occurs_right(name, p0, ", "@);
        lemma_occurs_right(name, p1, "green"@);
        lemma_occurs_right(name, p2, ", "@);
        lemma_occurs_right(name, p3, "blue"@);
        lemma_occurs_right(name, p4, ", "@);
        lemma_occurs_right(name, p5, "yellow"@);
        lemma_occurs_right(name, p6, ", "@);
        lemma_occurs_right(name, p7, "cyan"@);
        lemma_occurs_right(name, p8, ", "@);
        lemma_occurs_right(name, p9, "magenta"@);
        lemma_occurs_right(name, p10, ", "@);
        lemma_occurs_right(name, p11, "white"@);
    } else if name == "green"@ {
        lemma_occurs_left(name, p1, name);
        lemma_occurs_right(name, p2, ", "@);
        lemma_occurs_right(name, p3, "blue"@);
        lemma_occurs_right(name, p4, ", "@);
        lemma_occurs_right(name, p5, "yellow"@);
        lemma_occurs_right(name, p6, ", "@);
        lemma_occurs_right(name, p7, "cyan"@);
        lemma_occurs_right(name, p8, ", "@);
        lemma_occurs_right(name, p9, "magenta"@);
        lemma_occurs_right(name, p10, ", "@);
        lemma_occurs_right(name, p11, "white"@);
    } else if name == "blue"@ {
        lemma_occurs_left(name, p3, name);
        lemma_occurs_right(name, p4, ", "@);
        lemma_occurs_right(name, p5, "yellow"@);
        lemma_occurs_right(name, p6, ", "@);
        lemma_occurs_right(name, p7, "cyan"@);
        lemma_occurs_right(name, p8, ", "@);
        lemma_occurs_right(name, p9, "magenta"@);
        lemma_occurs_right(name, p10, ", "@);
        lemma_occurs_right(name, p11, "white"@);
    } else if name == "yellow"@ {
        lemma_occurs_left(name, p5, name);
        lemma_occurs_right(name, p6, ", "@);
        lemma_occurs_right(name, p7, "cyan"@);
        lemma_occurs_right(name, p8, ", "@);
        lemma_occurs_right(name, p9, "magenta"@);
        lemma_occurs_right(name, p10, ", "@);
        lemma_occurs_right(name, p11, "white"@);
    } else if name == "cyan"@ {
        lemma_occurs_left(name, p7, name);
        lemma_occurs_right(name, p8, ", "@);
        lemma_occurs_right(name, p9, "magenta"@);
        lemma_occurs_right(name, p10, ", "@);
        lemma_occurs_right(name, p11, "white"@);
    } else if name == "magenta"@ {
        lemma_occurs_left(name, p9, name);
        lemma_occurs_right(name, p10, ", "@);
        lemma_occurs_right(name, p11, "white"@);
    } else if name == "white"@ {
        lemma_occurs_left(name, p11, name);
    }
}

/// The message for an unknown colour names every colour that has a code.
pub proof fn lemma_unknown_colour_lists_names(colour: Seq<char>, name: Seq<char>)
    requires
        named_colour_code(name) is Some,
    ensures
        occurs_in(name, unknown_colour_message(colour)),
{
    lemma_listed(name);
    lemma_occurs_left(name, "Unexpected colour '"@ + colour + "'. Available colours: "@, colour_list());
}

/// The valid colour names, comma separated.
pub fn available_colours() -> (r: String)
    ensures
        r@ == colour_list(),
{
    let mut s = String::from_str("red");
    s.append(", ");
    s.append("green");
    s.append(", ");
    s.append("blue");
    s.append(", ");
    s.append("yellow");
    s.append(", ");
    s.append("cyan");
    s.append(", ");
    s.append("magenta");
    s.append(", ");
    s.append("white");
    s
}

impl HighlightError {
    /// A message for the user; for an unknown colour it lists the valid
    /// names.
    pub fn message(&self) -> (r: String)
        ensures
            r@ == message_of(self),
    {
        match self {
            HighlightError::InvalidPattern { pattern, reason } => {
                let mut s = String::from_str("Invalid pattern '");
                s.append(pattern.as_str());
                s.append("': ");
                s.append(reason.as_str());
                s
            },
            HighlightError::UnknownColour { colour } => {
                let mut s = String::from_str("Unexpected colour '");
                s.append(colour.as_str());
                s.append("'. Available colours: ");
                let names = available_colours();
                s.append(names.as_str());
                s
            },
            HighlightError::InvalidHexLiteral { literal } => {
                let mut s = String::from_str("Invalid hex colour '");
                s.append(literal.as_str());
                s.append("': expected 0x followed by one to six hex digits");
                s
            },
        }
    }
}

} // verus!
