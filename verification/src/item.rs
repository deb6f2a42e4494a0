use vstd::prelude::*;
use vstd::string::*;

use crate::date::Date;

verus! {

/// Completion state of one submission record from the feed.
#[derive(Clone, Copy, PartialEq, Eq, Structural, Debug)]
pub struct Submission {
    pub submitted: bool,
}

/// The nested record on the wire that names one plannable entity.
#[derive(Debug)]
pub struct CalendarItemInfo {
    pub id: usize,
    pub title: String,
}

/// One dated plannable entry, immutable once built from fetched data.
///
/// The wire gives the plannable date as a full date-time; only the calendar
/// date matters to navigation, so that is what the record keeps.
#[derive(Debug)]
pub struct CalendarItem {
    pub course_id: usize,
    pub course_name: String,
    pub date: Date,
    pub info: CalendarItemInfo,
    pub html_url: String,
    pub submissions: Option<Submission>,
}

impl Clone for CalendarItemInfo {
    fn clone(&self) -> (r: Self)
        ensures
            r == *self,
    {
        CalendarItemInfo { id: self.id, title: self.title.clone() }
    }
}

impl Clone for CalendarItem {
    fn clone(&self) -> (r: Self)
        ensures
            r == *self,
    {
        CalendarItem {
            course_id: self.course_id,
            course_name: self.course_name.clone(),
            date: self.date,
            info: self.info.clone(),
            html_url: self.html_url.clone(),
            submissions: self.submissions,
        }
    }
}

/// The characters that separate the tokens of a course name.
pub open spec fn is_blank(c: char) -> bool {
    c == ' ' || c == '\t' || c == '\n' || c == '\r' || c == '\u{000B}' || c == '\u{000C}'
}

fn blank_char(c: char) -> (r: bool)
    ensures
        r == is_blank(c),
{
    c == ' ' || c == '\t' || c == '\n' || c == '\r' || c == '\u{000B}' || c == '\u{000C}'
}

/// Position of the first character of `s` at or after position `i` whose
/// blankness is `blank`: with `blank` false it finds where a token starts,
/// with `blank` true where a token ends.
pub open spec fn first_boundary_from(s: Seq<char>, i: int, blank: bool) -> Option<int>
    decreases s.len() - i,
{
    if i < 0 || i >= s.len() {
        None
    } else if is_blank(s[i]) == blank {
        Some(i)
    } else {
        first_boundary_from(s, i + 1, blank)
    }
}

/// The course label: the first two whitespace-separated tokens of the raw
/// course name, joined by a single space. A name that holds fewer than two
/// tokens gives the empty label. The four boundaries below are where the first
/// token starts and ends and where the second token starts and ends.
pub open spec fn spec_course_label(name: Seq<char>) -> Seq<char> {
    match first_boundary_from(name, 0, false) {
        None => Seq::empty(),
        Some(a0) => match first_boundary_from(name, a0, true) {
            None => Seq::empty(),
            Some(b0) => match first_boundary_from(name, b0, false) {
                None => Seq::empty(),
                Some(a1) => {
                    let b1 = match first_boundary_from(name, a1, true) {
                        None => name.len() as int,
                        Some(b) => b,
                    };
                    name.subrange(a0, b0) + seq![' '] + name.subrange(a1, b1)
                },
            },
        },
    }
}

proof fn lemma_first_boundary_skip(s: Seq<char>, a: int, b: int, blank: bool)
    requires
        0 <= a <= b <= s.len(),
        forall|k: int| a <= k < b ==> is_blank(s[k]) != blank,
    ensures
        first_boundary_from(s, a, blank) == first_boundary_from(s, b, blank),
    decreases b - a,
{
    if a < b {
        assert(is_blank(s[a]) != blank);
        lemma_first_boundary_skip(s, a + 1, b, blank);
    }
}

/// Linear scan for the first character at or after `start` whose blankness is
/// `blank`.
fn find_boundary_from(s: &str, start: usize, blank: bool) -> (r: Option<usize>)
    requires
        start as int <= s@.len(),
    ensures
        match r {
            Some(u) => start <= u < s@.len() && first_boundary_from(s@, start as int, blank)
                == Some(u as int),
            None => first_boundary_from(s@, start as int, blank) is None,
        },
{
    let n = s.unicode_len();
    let mut i = start;
    while i < n
        invariant
            start <= i <= n,
            n == s@.len(),
            forall|k: int| start <= k < i ==> is_blank(s@[k]) != blank,
        decreases n - i,
    {
        if blank_char(s.get_char(i)) == blank {
            proof {
                lemma_first_boundary_skip(s@, start as int, i as int, blank);
            }
            return Some(i);
        }
        i = i + 1;
    }
    proof {
        lemma_first_boundary_skip(s@, start as int, i as int, blank);
    }
    None
}

impl CalendarItem {
    /// The two-token course label derived from the raw course name.
    pub fn get_course_code(&self) -> (r: String)
        ensures
            r@ == spec_course_label(self.course_name@),
    {
        let s = self.course_name.as_str();
        let n = s.unicode_len();
        let a0 = match find_boundary_from(s, 0, false) {
            None => {
                return String::new();
            },
            Some(a) => a,
        };
        let b0 = match find_boundary_from(s, a0, true) {
            None => {
                return String::new();
            },
            Some(b) => b,
        };
        let a1 = match find_boundary_from(s, b0, false) {
            None => {
                return String::new();
            },
            Some(a) => a,
        };
        let b1 = match find_boundary_from(s, a1, true) {
            None => n,
            Some(b) => b,
        };
        let mut r = s.substring_char(a0, b0).to_owned();
        r.append(" ");
        r.append(s.substring_char(a1, b1));
        proof {
            reveal_strlit(" ");
            assert(" "@ =~= seq![' ']);
        }
        r
    }

    /// The one-line text the renderer shows for this item.
    pub fn display_text(&self) -> (r: String)
        ensures
            r@ == spec_course_label(self.course_name@) + " - "@ + self.info.title@,
    {
        let mut r = self.get_course_code();
        r.append(" - ");
        r.append(self.info.title.as_str());
        r
    }

    /// Whether the item carries a submission that was handed in.
    pub open spec fn spec_completed(self) -> bool {
        match self.submissions {
            Some(s) => s.submitted,
            None => false,
        }
    }

    pub fn is_completed(&self) -> (r: bool)
        ensures
            r == self.spec_completed(),
    {
        match self.submissions {
            Some(s) => s.submitted,
            None => false,
        }
    }
}

/// The two shapes the submission field takes on the wire: a bare boolean, or
/// an object that carries a `submitted` flag.
#[derive(Clone, Copy, PartialEq, Eq, Structural, Debug)]
pub enum SubmissionWire {
    Flag(bool),
    Record { submitted: bool },
}

/// What a decoded submission field means: a bare boolean on the wire stands
/// for "no submission object" and decodes to `None`, whatever its value; an
/// object decodes to its `submitted` flag.
pub open spec fn spec_decode_submission(w: SubmissionWire) -> Option<Submission> {
    match w {
        SubmissionWire::Flag(_) => None,
        SubmissionWire::Record { submitted } => Some(Submission { submitted }),
    }
}

pub fn decode_submission(w: &SubmissionWire) -> (r: Option<Submission>)
    ensures
        r == spec_decode_submission(*w),
{
    match w {
        SubmissionWire::Flag(_) => None,
        SubmissionWire::Record { submitted } => Some(Submission { submitted: *submitted }),
    }
}

} // verus!
