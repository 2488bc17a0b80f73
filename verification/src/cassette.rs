//! The log cassette: collects the structured events that were written into a
//! log, one tagged payload per line.  A line contributes an event exactly
//! when it carries an opening tag followed by a closing tag; the event is the
//! (serialized) payload between the first opening tag and the first closing
//! tag after it.  Reading the log itself is I/O and stays outside the
//! library; this module works on the lines.

use vstd::prelude::*;

verus! {

/// Whether the needle occurs in the haystack at position `i`.
pub open spec fn matches_at(h: Seq<u8>, t: Seq<u8>, i: int) -> bool {
    0 <= i && i + t.len() <= h.len() && h.subrange(i, i + t.len()) == t
}

/// The first position at or after `from` where the needle occurs, if any.
pub open spec fn first_at(h: Seq<u8>, t: Seq<u8>, from: int) -> Option<int>
    decreases h.len() - from,
    when 0 <= from && t.len() >= 1
{
    if from + t.len() > h.len() {
        None
    } else if matches_at(h, t, from) {
        Some(from)
    } else {
        first_at(h, t, from + 1)
    }
}

/// What a successful search means: a match at the found position and no
/// match anywhere between `from` and it.
pub proof fn lemma_first_at_some(h: Seq<u8>, t: Seq<u8>, from: int, i: int)
    requires
        0 <= from,
        t.len() >= 1,
        first_at(h, t, from) == Some(i),
    ensures
        from <= i,
        matches_at(h, t, i),
        forall|j: int| from <= j < i ==> !matches_at(h, t, j),
    decreases h.len() - from,
{
    if from + t.len() > h.len() {
    } else if matches_at(h, t, from) {
    } else {
        lemma_first_at_some(h, t, from + 1, i);
    }
}

fn matches_at_exec(h: &[u8], t: &[u8], i: usize) -> (r: bool)
    requires
        i + t.len() <= h.len(),
    ensures
        r == matches_at(h@, t@, i as int),
{
    let mut k: usize = 0;
    while k < t.len()
        invariant
            k <= t.len(),
            i + t.len() <= h.len(),
            forall|m: int| 0 <= m < k ==> h@[i + m] == t@[m],
        decreases t.len() - k,
    {
        if h[i + k] != t[k] {
            proof {
                assert(h@.subrange(i as int, i + t.len())[k as int] == h@[i + k]);
            }
            return false;
        }
        k = k + 1;
    }
    proof {
        assert(h@.subrange(i as int, i + t.len()) =~= t@);
    }
    true
}

/// Finds the first occurrence of the needle at or after `from`.
fn find_from(h: &[u8], t: &[u8], from: usize) -> (r: Option<usize>)
    requires
        t.len() >= 1,
        from <= h.len(),
    ensures
        match r {
            Some(i) => first_at(h@, t@, from as int) == Some(i as int),
            None => first_at(h@, t@, from as int) is None,
        },
{
    if t.len() > h.len() - from {
        return None;
    }
    let last = h.len() - t.len();
    let mut i: usize = from;
    while i <= last
        invariant
            from <= i <= last + 1,
            last == h.len() - t.len(),
            1 <= t.len() <= h.len(),
            first_at(h@, t@, from as int) == first_at(h@, t@, i as int),
        decreases last + 1 - i,
    {
        if matches_at_exec(h, t, i) {
            return Some(i);
        }
        proof {
            assert(first_at(h@, t@, i as int) == first_at(h@, t@, i + 1));
        }
        i = i + 1;
    }
    proof {
        assert(first_at(h@, t@, i as int) is None);
    }
    None
}

/// The bytes of the opening tag, `<walkman>` in ASCII.
pub open spec fn open_tag() -> Seq<u8> {
    seq![60u8, 119u8, 97u8, 108u8, 107u8, 109u8, 97u8, 110u8, 62u8]
}

/// The bytes of the closing tag, `</walkman>` in ASCII.
pub open spec fn close_tag() -> Seq<u8> {
    seq![60u8, 47u8, 119u8, 97u8, 108u8, 107u8, 109u8, 97u8, 110u8, 62u8]
}

fn open_tag_bytes() -> (r: Vec<u8>)
    ensures
        r@ == open_tag(),
{
    let mut v: Vec<u8> = Vec::new();
    v.push(60);
    v.push(119);
    v.push(97);
    v.push(108);
    v.push(107);
    v.push(109);
    v.push(97);
    v.push(110);
    v.push(62);
    proof {
        assert(v@ =~= open_tag());
    }
    v
}

fn close_tag_bytes() -> (r: Vec<u8>)
    ensures
        r@ == close_tag(),
{
    let mut v: Vec<u8> = Vec::new();
    v.push(60);
    v.push(47);
    v.push(119);
    v.push(97);
    v.push(108);
    v.push(107);
    v.push(109);
    v.push(97);
    v.push(110);
    v.push(62);
    proof {
        assert(v@ =~= close_tag());
    }
    v
}

/// The payload a line contributes: the bytes between the first opening tag
/// and the first closing tag after it, if both are present.
pub open spec fn extracted_payload(line: Seq<u8>) -> Option<Seq<u8>> {
    match first_at(line, open_tag(), 0) {
        None => None,
        Some(p) => match first_at(line, close_tag(), p + open_tag().len()) {
            None => None,
            Some(j) => Some(line.subrange(p + open_tag().len(), j)),
        },
    }
}

/// Extracts the tagged payload of one log line, if the line carries one.
pub fn parse_line(line: &[u8]) -> (r: Option<Vec<u8>>)
    ensures
        match r {
            Some(payload) => extracted_payload(line@) == Some(payload@),
            None => extracted_payload(line@) is None,
        },
{
    let open = open_tag_bytes();
    let close = close_tag_bytes();
    let p = match find_from(line, open.as_slice(), 0) {
        None => {
            return None;
        },
        Some(p) => p,
    };
    let line_len = line.len();
    proof {
        lemma_first_at_some(line@, open_tag(), 0, p as int);
        assert(open_tag().len() == 9);
        assert(p + 9 <= line_len);
    }
    let start = p + open.len();
    let j = match find_from(line, close.as_slice(), start) {
        None => {
            return None;
        },
        Some(j) => j,
    };
    proof {
        lemma_first_at_some(line@, close_tag(), start as int, j as int);
    }
    let mut payload: Vec<u8> = Vec::new();
    let mut i: usize = start;
    while i < j
        invariant
            start <= i <= j,
            j <= line@.len(),
            payload@ == line@.subrange(start as int, i as int),
        decreases j - i,
    {
        payload.push(line[i]);
        proof {
            assert(payload@ =~= line@.subrange(start as int, i + 1));
        }
        i = i + 1;
    }
    Some(payload)
}

/// The events of a log: each line's payload, in line order, lines without a
/// tagged payload contributing nothing.
pub open spec fn parsed_events(lines: Seq<Seq<u8>>) -> Seq<Seq<u8>>
    decreases lines.len(),
{
    if lines.len() == 0 {
        Seq::empty()
    } else {
        let rest = parsed_events(lines.drop_last());
        match extracted_payload(lines.last()) {
            Some(p) => rest.push(p),
            None => rest,
        }
    }
}

/// A recorded log, reduced to its structured events.
#[derive(Debug)]
pub struct Cassette {
    events: Vec<Vec<u8>>,
}

impl View for Cassette {
    type V = Seq<Seq<u8>>;

    closed spec fn view(&self) -> Seq<Seq<u8>> {
        self.events@.map_values(|v: Vec<u8>| v@)
    }
}

impl Cassette {
    /// Collects the events of a log given as lines.
    pub fn from_lines(lines: &Vec<Vec<u8>>) -> (c: Cassette)
        ensures
            c@ == parsed_events(lines@.map_values(|l: Vec<u8>| l@)),
    {
        let ghost ls = lines@.map_values(|l: Vec<u8>| l@);
        let mut events: Vec<Vec<u8>> = Vec::new();
        let mut i: usize = 0;
        while i < lines.len()
            invariant
                i <= lines.len(),
                ls == lines@.map_values(|l: Vec<u8>| l@),
                ls.len() == lines@.len(),
                events@.map_values(|v: Vec<u8>| v@) == parsed_events(ls.take(i as int)),
            decreases lines.len() - i,
        {
            let ghost prev = events@.map_values(|v: Vec<u8>| v@);
            proof {
                assert(ls[i as int] == lines@[i as int]@);
            }
            match parse_line(lines[i].as_slice()) {
                Some(payload) => {
                    let ghost payloadv = payload@;
                    events.push(payload);
                    proof {
                        assert(events@.map_values(|v: Vec<u8>| v@) =~= prev.push(payloadv));
                    }
                },
                None => {},
            }
            proof {
                assert(ls.take(i + 1).drop_last() =~= ls.take(i as int));
                assert(ls.take(i + 1).last() == ls[i as int]);
            }
            i = i + 1;
        }
        proof {
            assert(ls.take(lines@.len() as int) =~= ls);
        }
        Cassette { events }
    }

    /// How many events the log carried.
    pub fn event_count(&self) -> (r: usize)
        ensures
            r == self@.len(),
    {
        self.events.len()
    }

    /// The serialized payload of one event.
    pub fn event(&self, i: usize) -> (r: &Vec<u8>)
        requires
            i < self@.len(),
        ensures
            r@ == self@[i as int],
    {
        &self.events[i]
    }
}

} // verus!
