//! Live progress read from the encoder's diagnostic stream: bytes accumulate
//! in a buffer that is searched for `time=HH:MM:SS ... speed=D.D`.
use vstd::prelude::*;
use crate::text::{decimal_of, parse_decimal};

verus! {

/// What `regex::Regex` gives for `pattern` on `text`: an error where the
/// pattern does not compile; otherwise the groups of the leftmost match, if
/// there is one, group 0 being the whole match.
pub uninterp spec fn regex_captures_of(pattern: Seq<char>, text: Seq<char>) -> Result<
    Option<Seq<Option<Seq<char>>>>,
    (),
>;

/// Capture groups seen as character sequences.
pub open spec fn groups_view(g: Seq<Option<String>>) -> Seq<Option<Seq<char>>> {
    g.map_values(
        |o: Option<String>|
            match o {
                Some(s) => Some(s@),
                None => None,
            },
    )
}

/// The outcome of a regex search seen as character sequences.
pub open spec fn captures_view(r: Result<Option<Vec<Option<String>>>, ()>) -> Result<
    Option<Seq<Option<Seq<char>>>>,
    (),
> {
    match r {
        Ok(Some(g)) => Ok(Some(groups_view(g@))),
        Ok(None) => Ok(None),
        Err(()) => Err(()),
    }
}

/// Relies on `regex::Regex::new` to compile `pattern` and on
/// `regex::Regex::captures` for the groups of its leftmost match in `text`
/// (a group that took no part in the match is `None`); what comes back
/// depends on the pattern and the text alone.
#[verifier::external_body]
fn regex_captures(pattern: &str, text: &Vec<char>) -> (r: Result<Option<Vec<Option<String>>>, ()>)
    ensures
        captures_view(r) == regex_captures_of(pattern@, text@),
{
    let haystack: String = text.iter().collect();
    let re = regex::Regex::new(pattern).map_err(|_| ())?;
    Ok(re.captures(&haystack).map(|c| c.iter().map(|m| m.map(|m| m.as_str().to_string())).collect()))
}

/// The pattern searched for in the encoder's output.
pub open spec fn time_pattern() -> Seq<char> {
    "time=(\\d+):(\\d+):(\\d+).*speed=(\\d+).(\\d+)"@
}

/// One progress reading: a timestamp and the encoding speed
/// `speed_major.speed_minor`.
#[derive(Clone, Copy, Debug, PartialEq, Eq, Structural)]
pub struct Progress {
    pub hour: u64,
    pub minute: u64,
    pub second: u64,
    pub speed_major: u64,
    pub speed_minor: u64,
}

/// Group `i` read as a decimal number.
pub open spec fn group_value(g: Seq<Option<Seq<char>>>, i: int) -> Option<u64> {
    if 0 <= i < g.len() && g[i] is Some {
        decimal_of(g[i]->Some_0)
    } else {
        None
    }
}

/// The reading that the groups of a match give, if all five read as numbers.
pub open spec fn reading_of(g: Seq<Option<Seq<char>>>) -> Option<Progress> {
    if group_value(g, 1) is Some && group_value(g, 2) is Some && group_value(g, 3) is Some
        && group_value(g, 4) is Some && group_value(g, 5) is Some {
        Some(
            Progress {
                hour: group_value(g, 1)->Some_0,
                minute: group_value(g, 2)->Some_0,
                second: group_value(g, 3)->Some_0,
                speed_major: group_value(g, 4)->Some_0,
                speed_minor: group_value(g, 5)->Some_0,
            },
        )
    } else {
        None
    }
}

/// `a` comes strictly after `b`, comparing hours, then minutes, then seconds.
pub open spec fn later(a: (u64, u64, u64), b: (u64, u64, u64)) -> bool {
    a.0 > b.0 || (a.0 == b.0 && (a.1 > b.1 || (a.1 == b.1 && a.2 > b.2)))
}

/// The reading to display after a search that found `groups`, given the last
/// displayed timestamp: one that reads and moves forward, else none.
pub open spec fn shown(last: (u64, u64, u64), groups: Option<Seq<Option<Seq<char>>>>) -> Option<
    Progress,
> {
    match groups {
        Some(g) => match reading_of(g) {
            Some(p) => if later((p.hour, p.minute, p.second), last) {
                Some(p)
            } else {
                None
            },
            None => None,
        },
        None => None,
    }
}

/// The groups that a search of `text` finds; a pattern that does not compile
/// finds nothing.
pub open spec fn search(text: Seq<char>) -> Option<Seq<Option<Seq<char>>>> {
    match regex_captures_of(time_pattern(), text) {
        Ok(g) => g,
        Err(()) => None,
    }
}

/// Reads progress from the encoder's output, byte by byte.
pub struct ProgressParser {
    buffer: Vec<char>,
    last: (u64, u64, u64),
}

impl ProgressParser {
    /// The bytes received since the last match, as characters.
    pub closed spec fn buffer(&self) -> Seq<char> {
        self.buffer@
    }

    /// The last displayed timestamp.
    pub closed spec fn last(&self) -> (u64, u64, u64) {
        self.last
    }

    /// A parser with an empty buffer; the displayed timestamp starts at zero.
    pub fn new() -> (r: ProgressParser)
        ensures
            r.buffer() == Seq::<char>::empty(),
            r.last() == (0u64, 0u64, 0u64),
    {
        ProgressParser { buffer: Vec::new(), last: (0, 0, 0) }
    }

    /// Takes the outcome of a search of the buffer. After a match the buffer
    /// is cleared, and a reading that moves the timestamp forward becomes the
    /// displayed one and is returned; without a match nothing changes.
    pub fn apply_search(&mut self, groups: Option<Vec<Option<String>>>) -> (r: Option<Progress>)
        ensures
            ({
                let g = match groups {
                    Some(v) => Some(groups_view(v@)),
                    None => None,
                };
                &&& r == shown(old(self).last(), g)
                &&& final(self).buffer() == if g is Some {
                    Seq::<char>::empty()
                } else {
                    old(self).buffer()
                }
                &&& final(self).last() == match r {
                    Some(p) => (p.hour, p.minute, p.second),
                    None => old(self).last(),
                }
            }),
    {
        match groups {
            None => None,
            Some(g) => {
                self.buffer.clear();
                let ghost gs = groups_view(g@);
                let mut fields: Vec<u64> = Vec::new();
                let mut i: usize = 1;
                while i <= 5
                    invariant
                        1 <= i <= 6,
                        gs == groups_view(g@),
                        groups == Some(g),
                        self.buffer@ == Seq::<char>::empty(),
                        self.last == old(self).last,
                        fields@.len() == i - 1,
                        forall|j: int|
                            0 <= j < i - 1 ==> group_value(gs, j + 1) == Some(#[trigger] fields@[j]),
                    decreases 6 - i,
                {
                    assert(gs.len() == g@.len());
                    if i >= g.len() {
                        assert(reading_of(gs) is None);
                        return None;
                    }
                    match &g[i] {
                        None => {
                            assert(gs[i as int] == None::<Seq<char>>);
                            assert(group_value(gs, i as int) is None);
                            assert(reading_of(gs) is None);
                            return None;
                        },
                        Some(t) => {
                            assert(gs[i as int] == Some(t@));
                            match parse_decimal(t.as_str()) {
                                None => {
                                    return None;
                                },
                                Some(v) => {
                                    assert(group_value(gs, i as int) == Some(v));
                                    fields.push(v);
                                },
                            }
                        },
                    }
                    i = i + 1;
                }
                let p = Progress {
                    hour: fields[0],
                    minute: fields[1],
                    second: fields[2],
                    speed_major: fields[3],
                    speed_minor: fields[4],
                };
                assert(group_value(gs, 1) == Some(fields@[0]));
                assert(group_value(gs, 2) == Some(fields@[1]));
                assert(group_value(gs, 3) == Some(fields@[2]));
                assert(group_value(gs, 4) == Some(fields@[3]));
                assert(group_value(gs, 5) == Some(fields@[4]));
                assert(reading_of(gs) == Some(p));
                let (h, m, s) = self.last;
                if p.hour > h || (p.hour == h && (p.minute > m || (p.minute == m && p.second > s))) {
                    self.last = (p.hour, p.minute, p.second);
                    Some(p)
                } else {
                    None
                }
            },
        }
    }

    /// Adds one byte of the encoder's output, read as a character, and
    /// searches the buffer.
    pub fn feed(&mut self, byte: u8) -> (r: Option<Progress>)
        ensures
            ({
                let text = old(self).buffer().push(byte as char);
                let g = search(text);
                &&& r == shown(old(self).last(), g)
                &&& final(self).buffer() == if g is Some {
                    Seq::<char>::empty()
                } else {
                    text
                }
                &&& final(self).last() == match r {
                    Some(p) => (p.hour, p.minute, p.second),
                    None => old(self).last(),
                }
            }),
            final(self).last() == old(self).last() || later(final(self).last(), old(self).last()),
    {
        self.buffer.push(byte as char);
        let found = regex_captures("time=(\\d+):(\\d+):(\\d+).*speed=(\\d+).(\\d+)", &self.buffer);
        let groups = match found {
            Ok(g) => g,
            Err(()) => None,
        };
        self.apply_search(groups)
    }
}

} // verus!
