//! The display pipeline: compact single-line summaries and recursively
//! resolved detail trees.
//!
//! A rendering is a sequence of styled text segments ([`Segment`]) for a
//! terminal sink; tree construction and styling live here, independent of the
//! sink. Natural keys are rendered with safe quoting ([`quoted`]). Visibility
//! is a styling hint only: an unscoped entity renders in a muted style, never
//! disappears.

use vstd::prelude::*;
use crate::email::Email;
use crate::email::NewEmail;
use crate::errors::Error;
use crate::store::Breach;
use crate::store::Database;
use crate::store::clone_opt_string;
use crate::store::find_breach;
use crate::store::links_of;

verus! {

/// The style tag of one output segment.
#[derive(Clone, Copy, Debug, PartialEq, Eq, Structural)]
pub enum Style {
    Plain,
    Green,
    Red,
    /// The muted convention for entities hidden from default views.
    Muted,
}

/// One styled piece of terminal output.
#[derive(Debug, PartialEq)]
pub struct Segment {
    pub style: Style,
    pub text: String,
}

/// The mathematical view of a segment.
#[verifier::ext_equal]
pub struct SegView {
    pub style: Style,
    pub text: Seq<char>,
}

/// The view of one segment.
pub open spec fn seg_view(s: Segment) -> SegView {
    SegView { style: s.style, text: s.text@ }
}

/// The views of a run of segments.
pub open spec fn seg_views(s: Seq<Segment>) -> Seq<SegView> {
    s.map_values(|g: Segment| seg_view(g))
}

/// The decimal digit characters.
pub open spec fn dec_digit(d: int) -> char {
    if d == 0 {
        '0'
    } else if d == 1 {
        '1'
    } else if d == 2 {
        '2'
    } else if d == 3 {
        '3'
    } else if d == 4 {
        '4'
    } else if d == 5 {
        '5'
    } else if d == 6 {
        '6'
    } else if d == 7 {
        '7'
    } else if d == 8 {
        '8'
    } else {
        '9'
    }
}

/// The decimal rendering of a nonnegative number, most significant digit
/// first.
pub open spec fn dec_str(n: int) -> Seq<char>
    recommends
        0 <= n,
    decreases n,
{
    if n < 10 {
        seq![dec_digit(n)]
    } else {
        dec_str(n / 10).push(dec_digit(n % 10))
    }
}

/// The decimal rendering of a signed id.
pub open spec fn dec_i32(n: int) -> Seq<char> {
    if n < 0 {
        seq!['-'] + dec_str(-n)
    } else {
        dec_str(n)
    }
}

/// One decimal digit as text.
fn digit_str(d: u32) -> (r: &'static str)
    requires
        d < 10,
    ensures
        r@ == seq![dec_digit(d as int)],
{
    let s: &'static str = match d {
        0 => "0",
        1 => "1",
        2 => "2",
        3 => "3",
        4 => "4",
        5 => "5",
        6 => "6",
        7 => "7",
        8 => "8",
        _ => "9",
    };
    proof {
        reveal_strlit("0");
        reveal_strlit("1");
        reveal_strlit("2");
        reveal_strlit("3");
        reveal_strlit("4");
        reveal_strlit("5");
        reveal_strlit("6");
        reveal_strlit("7");
        reveal_strlit("8");
        reveal_strlit("9");
        assert(s@ =~= seq![dec_digit(d as int)]);
    }
    s
}

/// Appends the decimal rendering of `n`.
fn push_decimal(out: &mut String, n: u32)
    ensures
        final(out)@ == old(out)@ + dec_str(n as int),
    decreases n,
{
    if n < 10 {
        out.append(digit_str(n));
        proof {
            assert(out@ =~= old(out)@ + dec_str(n as int));
        }
    } else {
        push_decimal(out, n / 10);
        out.append(digit_str(n % 10));
        proof {
            assert(out@ =~= old(out)@ + dec_str(n as int));
        }
    }
}

/// Appends the decimal rendering of a signed id.
fn push_id(out: &mut String, id: i32)
    ensures
        final(out)@ == old(out)@ + dec_i32(id as int),
{
    if id >= 0 {
        push_decimal(out, id as u32);
    } else {
        out.append("-");
        proof {
            reveal_strlit("-");
        }
        let wide: i64 = -(id as i64);
        push_decimal(out, wide as u32);
        proof {
            assert(out@ =~= old(out)@ + dec_i32(id as int));
        }
    }
}

/// What escaping does to one character: quote, backslash and the common
/// control characters get a backslash escape, everything else stands as it
/// is.
pub open spec fn escaped_char(c: char) -> Seq<char> {
    if c == '"' {
        seq!['\\', '"']
    } else if c == '\\' {
        seq!['\\', '\\']
    } else if c == '\n' {
        seq!['\\', 'n']
    } else if c == '\r' {
        seq!['\\', 'r']
    } else if c == '\t' {
        seq!['\\', 't']
    } else {
        seq![c]
    }
}

/// Escaping a whole string, character by character.
pub open spec fn escaped(s: Seq<char>) -> Seq<char>
    decreases s.len(),
{
    if s.len() == 0 {
        Seq::empty()
    } else {
        escaped(s.drop_last()) + escaped_char(s.last())
    }
}

/// Safe quoting for terminal output: the escaped string between double
/// quotes.
pub open spec fn quoted(s: Seq<char>) -> Seq<char> {
    seq!['"'] + escaped(s) + seq!['"']
}

/// Renders a string with safe quoting and escaping for terminal output.
pub fn quote_str(s: &str) -> (r: String)
    ensures
        r@ == quoted(s@),
{
    let n = s.unicode_len();
    let mut out = String::new();
    out.append("\"");
    proof {
        reveal_strlit("\"");
        assert(out@ =~= seq!['"'] + escaped(s@.subrange(0, 0)));
    }
    let mut i: usize = 0;
    while i < n
        invariant
            n == s@.len(),
            0 <= i <= n,
            out@ == seq!['"'] + escaped(s@.subrange(0, i as int)),
        decreases n - i,
    {
        let c = s.get_char(i);
        if c == '"' {
            out.append("\\\"");
            proof {
                reveal_strlit("\\\"");
            }
        } else if c == '\\' {
            out.append("\\\\");
            proof {
                reveal_strlit("\\\\");
            }
        } else if c == '\n' {
            out.append("\\n");
            proof {
                reveal_strlit("\\n");
            }
        } else if c == '\r' {
            out.append("\\r");
            proof {
                reveal_strlit("\\r");
            }
        } else if c == '\t' {
            out.append("\\t");
            proof {
                reveal_strlit("\\t");
            }
        } else {
            let piece = s.substring_char(i, i + 1);
            out.append(piece);
        }
        proof {
            assert(s@.subrange(0, i + 1 as int).drop_last() =~= s@.subrange(0, i as int));
            assert(s@.subrange(0, i + 1 as int).last() == s@[i as int]);
            assert(out@ =~= seq!['"'] + escaped(s@.subrange(0, i + 1 as int)));
        }
        i = i + 1;
    }
    out.append("\"");
    proof {
        assert(s@.subrange(0, n as int) =~= s@);
        assert(out@ =~= quoted(s@));
    }
    out
}

/// The compact single-line rendering of an email: the quoted natural key,
/// with no relationship traversal.
#[derive(Debug, PartialEq)]
pub struct PrintableEmail {
    pub value: String,
}

impl PrintableEmail {
    /// The summary line.
    pub fn to_string(&self) -> (r: String)
        ensures
            r@ == quoted(self.value@),
    {
        quote_str(self.value.as_str())
    }
}

/// The compact single-line rendering of a breach.
#[derive(Debug, PartialEq)]
pub struct PrintableBreach {
    pub value: String,
}

impl PrintableBreach {
    /// The summary line.
    pub fn to_string(&self) -> (r: String)
        ensures
            r@ == quoted(self.value@),
    {
        quote_str(self.value.as_str())
    }
}

impl Email {
    /// The compact summary of a stored email.
    pub fn printable(&self, _db: &Database) -> (r: Result<PrintableEmail, Error>)
        ensures
            r matches Ok(p) && p.value@ == self.value@,
    {
        Ok(PrintableEmail { value: self.value.clone() })
    }
}

impl NewEmail {
    /// The compact summary of a construction record.
    pub fn printable(&self, _db: &Database) -> (r: Result<PrintableEmail, Error>)
        ensures
            r matches Ok(p) && p.value@ == self.value@,
    {
        Ok(PrintableEmail { value: self.value.clone() })
    }
}

impl Breach {
    /// The compact summary of a stored breach.
    pub fn printable(&self, _db: &Database) -> (r: Result<PrintableBreach, Error>)
        ensures
            r matches Ok(p) && p.value@ == self.value@,
    {
        Ok(PrintableBreach { value: self.value.clone() })
    }
}

/// One resolved child of a detailed email: the breach summary and the
/// optional credential payload of the association row, threaded through
/// unchanged.
#[derive(Debug, PartialEq)]
pub struct BreachWithPassword {
    pub breach: PrintableBreach,
    pub password: Option<String>,
}

/// The child line of one resolved breach: the quoted breach name, and the
/// quoted credential in parentheses where the association row carries one.
pub open spec fn bwp_text(b: BreachWithPassword) -> Seq<char> {
    match b.password {
        Some(p) => quoted(b.breach.value@) + " ("@ + quoted(p@) + ")"@,
        None => quoted(b.breach.value@),
    }
}

impl BreachWithPassword {
    /// The child line.
    pub fn to_string(&self) -> (r: String)
        ensures
            r@ == bwp_text(*self),
    {
        let mut out = quote_str(self.breach.value.as_str());
        match &self.password {
            Option::Some(p) => {
                out.append(" (");
                let qp = quote_str(p.as_str());
                out.append(qp.as_str());
                out.append(")");
            },
            Option::None => {},
        }
        out
    }
}

/// The fully resolved detail tree of one email: the header fields and the
/// eagerly materialized children from relationship resolution.
#[derive(Debug, PartialEq)]
pub struct DetailedEmail {
    pub id: i32,
    pub value: String,
    pub breaches: Vec<BreachWithPassword>,
    pub unscoped: bool,
    pub valid: Option<bool>,
}

/// The style of the natural key in the header: muted where the entity is
/// hidden from default views.
pub open spec fn key_style(unscoped: bool) -> Style {
    if unscoped {
        Style::Muted
    } else {
        Style::Green
    }
}

/// The style of the child lines: muted where the entity is hidden from
/// default views.
pub open spec fn child_style(unscoped: bool) -> Style {
    if unscoped {
        Style::Muted
    } else {
        Style::Plain
    }
}

/// The header line of the detail tree: the id, the styled quoted natural key,
/// and a badge for the validity attribute where it is set — an unset
/// attribute is simply omitted, never an error.
pub open spec fn header_segs(d: DetailedEmail) -> Seq<SegView> {
    let base = seq![
        SegView { style: Style::Plain, text: seq!['#'] + dec_i32(d.id as int) + seq![' '] },
        SegView { style: key_style(d.unscoped), text: quoted(d.value@) },
    ];
    match d.valid {
        Some(true) => base + seq![
            SegView { style: Style::Plain, text: " ["@ },
            SegView { style: Style::Green, text: "valid"@ },
            SegView { style: Style::Plain, text: "]"@ },
        ],
        Some(false) => base + seq![
            SegView { style: Style::Plain, text: " ["@ },
            SegView { style: Style::Red, text: "invalid"@ },
            SegView { style: Style::Plain, text: "]"@ },
        ],
        None => base,
    }
}

/// The children block: one indented line per resolved breach, in resolution
/// order. An empty child list is an empty block.
pub open spec fn children_segs(bs: Seq<BreachWithPassword>, st: Style) -> Seq<SegView>
    decreases bs.len(),
{
    if bs.len() == 0 {
        Seq::empty()
    } else {
        children_segs(bs.drop_last(), st) + seq![
            SegView { style: Style::Plain, text: "\n  "@ },
            SegView { style: st, text: bwp_text(bs.last()) },
        ]
    }
}

/// The whole detail rendering: the header line, then the children block.
pub open spec fn render_segs(d: DetailedEmail) -> Seq<SegView> {
    header_segs(d) + children_segs(d.breaches@, child_style(d.unscoped))
}

impl DetailedEmail {
    /// Effective visibility of the rendered entity.
    pub fn scoped(&self) -> (r: bool)
        ensures
            r == !self.unscoped,
    {
        !self.unscoped
    }

    /// The header line of the detail tree, as styled segments.
    pub fn print(&self) -> (r: Vec<Segment>)
        ensures
            seg_views(r@) == header_segs(*self),
    {
        let mut idtext = String::new();
        idtext.append("#");
        push_id(&mut idtext, self.id);
        idtext.append(" ");
        proof {
            reveal_strlit("#");
            reveal_strlit(" ");
            assert(idtext@ =~= seq!['#'] + dec_i32(self.id as int) + seq![' ']);
        }
        let mut out: Vec<Segment> = Vec::new();
        out.push(Segment { style: Style::Plain, text: idtext });
        let st = if self.unscoped {
            Style::Muted
        } else {
            Style::Green
        };
        out.push(Segment { style: st, text: quote_str(self.value.as_str()) });
        match self.valid {
            Option::Some(true) => {
                out.push(Segment { style: Style::Plain, text: " [".to_owned() });
                out.push(Segment { style: Style::Green, text: "valid".to_owned() });
                out.push(Segment { style: Style::Plain, text: "]".to_owned() });
            },
            Option::Some(false) => {
                out.push(Segment { style: Style::Plain, text: " [".to_owned() });
                out.push(Segment { style: Style::Red, text: "invalid".to_owned() });
                out.push(Segment { style: Style::Plain, text: "]".to_owned() });
            },
            Option::None => {},
        }
        proof {
            assert(seg_views(out@) =~= header_segs(*self));
        }
        out
    }

    /// The child lines, one per resolved breach, in resolution order.
    pub fn children(&self) -> (r: Vec<String>)
        ensures
            r@.len() == self.breaches@.len(),
            forall|i: int| 0 <= i < r@.len() ==> (#[trigger] r@[i])@ == bwp_text(self.breaches@[i]),
    {
        let m = self.breaches.len();
        let mut out: Vec<String> = Vec::new();
        let mut j: usize = 0;
        while j < m
            invariant
                m == self.breaches.len(),
                0 <= j <= m,
                out@.len() == j,
                forall|i: int|
                    0 <= i < j ==> (#[trigger] out@[i])@ == bwp_text(self.breaches@[i]),
            decreases m - j,
        {
            out.push(self.breaches[j].to_string());
            j = j + 1;
        }
        out
    }

    /// The whole detail rendering, as styled segments: the header line, then
    /// one indented line per child. With no children there is no children
    /// block: the rendering is the header alone.
    pub fn render(&self) -> (r: Vec<Segment>)
        ensures
            seg_views(r@) == render_segs(*self),
            self.breaches@.len() == 0 ==> seg_views(r@) == header_segs(*self),
    {
        let mut out = self.print();
        let st = if self.unscoped {
            Style::Muted
        } else {
            Style::Plain
        };
        let m = self.breaches.len();
        proof {
            assert(seg_views(out@) =~= header_segs(*self) + children_segs(
                self.breaches@.subrange(0, 0),
                st,
            ));
        }
        let mut j: usize = 0;
        while j < m
            invariant
                m == self.breaches.len(),
                0 <= j <= m,
                st == child_style(self.unscoped),
                seg_views(out@) == header_segs(*self) + children_segs(
                    self.breaches@.subrange(0, j as int),
                    st,
                ),
            decreases m - j,
        {
            let ghost out0 = out@;
            out.push(Segment { style: Style::Plain, text: "\n  ".to_owned() });
            out.push(Segment { style: st, text: self.breaches[j].to_string() });
            proof {
                let prev = self.breaches@.subrange(0, j as int);
                let cur = self.breaches@.subrange(0, j + 1 as int);
                assert(cur.drop_last() =~= prev);
                assert(cur.last() == self.breaches@[j as int]);
                assert(children_segs(cur, st) == children_segs(prev, st) + seq![
                    SegView { style: Style::Plain, text: "\n  "@ },
                    SegView { style: st, text: bwp_text(self.breaches@[j as int]) },
                ]);
                let rhs = header_segs(*self) + children_segs(cur, st);
                assert(seg_views(out0).len() == out0.len());
                assert forall|k: int| 0 <= k < seg_views(out@).len() implies seg_views(out@)[k]
                    == rhs[k] by {
                    assert(seg_views(out@)[k] == seg_view(out@[k]));
                    if k < out0.len() {
                        assert(out@[k] == out0[k]);
                        assert(seg_views(out0)[k] == seg_view(out0[k]));
                    }
                }
                assert(seg_views(out@) =~= rhs);
            }
            j = j + 1;
        }
        proof {
            assert(self.breaches@.subrange(0, m as int) =~= self.breaches@);
            assert(seg_views(out@) =~= render_segs(*self));
            if self.breaches@.len() == 0 {
                assert(seg_views(out@) =~= header_segs(*self));
            }
        }
        out
    }

    /// The detail rendering flattened to plain text, for sinks without
    /// styling.
    pub fn to_string(&self) -> (r: String)
        ensures
            r@ == segs_text(render_segs(*self)),
    {
        let segs = self.render();
        let n = segs.len();
        let mut out = String::new();
        let mut i: usize = 0;
        while i < n
            invariant
                n == segs.len(),
                seg_views(segs@) == render_segs(*self),
                0 <= i <= n,
                out@ == segs_text(seg_views(segs@).subrange(0, i as int)),
            decreases n - i,
        {
            out.append(segs[i].text.as_str());
            proof {
                assert(seg_views(segs@).subrange(0, i + 1 as int).drop_last() =~= seg_views(
                    segs@,
                ).subrange(0, i as int));
                assert(seg_views(segs@).subrange(0, i + 1 as int).last() == seg_views(segs@)[i as int]);
                assert(out@ =~= segs_text(seg_views(segs@).subrange(0, i + 1 as int)));
            }
            i = i + 1;
        }
        proof {
            assert(seg_views(segs@).subrange(0, n as int) =~= seg_views(segs@));
        }
        out
    }
}

/// The plain text of a run of segments, styling dropped.
pub open spec fn segs_text(s: Seq<SegView>) -> Seq<char>
    decreases s.len(),
{
    if s.len() == 0 {
        Seq::empty()
    } else {
        segs_text(s.drop_last()) + s.last().text
    }
}

impl Email {
    /// The fully resolved detail tree of this email: relationship resolution
    /// (eager, the whole tree up front) plus the header fields. Fails exactly
    /// as [`Email::breaches`] does on corrupted association data.
    pub fn detailed(&self, db: &Database) -> (r: Result<DetailedEmail, Error>)
        ensures
            match r {
                Ok(d) => {
                    let ls = links_of(db@.links, self.id);
                    &&& d.id == self.id
                    &&& d.value@ == self.value@
                    &&& d.unscoped == self.unscoped
                    &&& d.valid == self.valid
                    &&& d.breaches@.len() == ls.len()
                    &&& forall|i: int|
                        0 <= i < ls.len() ==> (find_breach(db@.breaches, ls[i].breach_id) matches
                        Some(b) && (#[trigger] d.breaches@[i]).breach.value@ == b.value@
                            && d.breaches@[i].password == ls[i].password)
                },
                Err(e) => match e {
                    Error::IntegrityFault(bid) => find_breach(db@.breaches, bid) is None && exists|
                        i: int,
                    |
                        0 <= i < links_of(db@.links, self.id).len() && (#[trigger] links_of(
                            db@.links,
                            self.id,
                        )[i]).breach_id == bid,
                    _ => false,
                },
            },
    {
        let pairs = match self.breaches(db) {
            Ok(v) => v,
            Err(e) => {
                return Err(e);
            },
        };
        let m = pairs.len();
        let mut kids: Vec<BreachWithPassword> = Vec::new();
        let mut j: usize = 0;
        while j < m
            invariant
                m == pairs.len(),
                0 <= j <= m,
                kids@.len() == j,
                forall|i: int|
                    0 <= i < j ==> (#[trigger] kids@[i]).breach.value@ == pairs@[i].0.value@
                        && kids@[i].password == pairs@[i].1,
            decreases m - j,
        {
            let row = &pairs[j];
            kids.push(
                BreachWithPassword {
                    breach: PrintableBreach { value: row.0.value.clone() },
                    password: clone_opt_string(&row.1),
                },
            );
            j = j + 1;
        }
        Ok(
            DetailedEmail {
                id: self.id,
                value: self.value.clone(),
                breaches: kids,
                unscoped: self.unscoped,
                valid: self.valid,
            },
        )
    }
}

} // verus!
