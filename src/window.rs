//! Per-channel windows of the three most recent lines, and the haiku checks
//! run on each incoming line.
use crate::counting::{
    five_seven_five, inline_haiku, is_five_seven_five, is_haiku_single, line_syllables,
    SyllableCounter,
};
use std::collections::HashMap;
use vstd::prelude::*;

verus! {

broadcast use vstd::std_specs::hash::group_hash_axioms;

/// One physical line of a message, with its author.
#[derive(Clone, Debug, PartialEq, Eq)]
pub struct HaikuLine {
    pub author: u64,
    pub content: String,
}

impl HaikuLine {
    /// A line by `author`.
    pub fn new(author: u64, content: String) -> (r: HaikuLine)
        ensures
            r.author == author,
            r.content == content,
    {
        HaikuLine { author, content }
    }

    /// A copy of this line.
    pub fn duplicate(&self) -> (r: HaikuLine)
        ensures
            r == *self,
    {
        HaikuLine { author: self.author, content: self.content.clone() }
    }
}

/// A recognised haiku: three lines with their authors, when it was seen
/// (milliseconds since the Unix epoch, UTC), and where.
#[derive(Clone, Debug)]
pub struct Haiku {
    pub lines: [HaikuLine; 3],
    pub timestamp: i64,
    pub channel: u64,
    pub server: u64,
}

/// `w` after `line` arrives: appended, and the oldest dropped beyond three.
pub open spec fn slide(w: Seq<HaikuLine>, line: HaikuLine) -> Seq<HaikuLine> {
    let s = w.push(line);
    if s.len() > 3 {
        s.drop_first()
    } else {
        s
    }
}

/// The haiku that a window holds: its three lines, when they count 5, 7 and 5.
pub open spec fn window_haiku(dict: Seq<Seq<char>>, w: Seq<HaikuLine>) -> Option<
    Seq<HaikuLine>,
> {
    if w.len() == 3 && is_five_seven_five(dict, w[0].content@, w[1].content@, w[2].content@) {
        Some(w)
    } else {
        None
    }
}

/// Up to three most recent lines of a channel; filled from the newest end.
pub struct ChannelWindow {
    oldest: Option<HaikuLine>,
    middle: Option<HaikuLine>,
    newest: Option<HaikuLine>,
}

impl ChannelWindow {
    /// Occupied slots are the newest ones.
    pub closed spec fn wf(&self) -> bool {
        &&& self.oldest is Some ==> self.middle is Some
        &&& self.middle is Some ==> self.newest is Some
    }

    /// The lines held, oldest first.
    pub closed spec fn lines(&self) -> Seq<HaikuLine> {
        if self.oldest is Some {
            seq![self.oldest->0, self.middle->0, self.newest->0]
        } else if self.middle is Some {
            seq![self.middle->0, self.newest->0]
        } else if self.newest is Some {
            seq![self.newest->0]
        } else {
            Seq::empty()
        }
    }

    /// A window that holds nothing.
    pub fn empty() -> (r: ChannelWindow)
        ensures
            r.wf(),
            r.lines() == Seq::<HaikuLine>::empty(),
    {
        ChannelWindow { oldest: None, middle: None, newest: None }
    }

    /// The window after `line` arrives: every line moves one slot older and
    /// the oldest is evicted.
    pub fn shifted(self, line: HaikuLine) -> (r: ChannelWindow)
        requires
            self.wf(),
        ensures
            r.wf(),
            r.lines() == slide(self.lines(), line),
    {
        let r = ChannelWindow { oldest: self.middle, middle: self.newest, newest: Some(line) };
        assert(r.lines() =~= slide(self.lines(), line));
        r
    }

    /// Copies of the lines held, oldest first.
    pub fn to_vec(&self) -> (r: Vec<HaikuLine>)
        requires
            self.wf(),
        ensures
            r@ == self.lines(),
    {
        let mut r: Vec<HaikuLine> = Vec::new();
        if let Some(a) = &self.oldest {
            r.push(a.duplicate());
        }
        if let Some(b) = &self.middle {
            r.push(b.duplicate());
        }
        if let Some(c) = &self.newest {
            r.push(c.duplicate());
        }
        assert(r@ =~= self.lines());
        r
    }

    /// The three lines, when the window is full.
    pub fn full_lines(&self) -> (r: Option<[HaikuLine; 3]>)
        requires
            self.wf(),
        ensures
            match r {
                Some(ls) => self.lines().len() == 3 && ls@ == self.lines(),
                None => self.lines().len() < 3,
            },
    {
        match (&self.oldest, &self.middle, &self.newest) {
            (Some(a), Some(b), Some(c)) => {
                let ls = [a.duplicate(), b.duplicate(), c.duplicate()];
                assert(ls@ =~= self.lines());
                Some(ls)
            },
            _ => None,
        }
    }
}

/// The windows of all channels seen so far.
pub struct ChannelWindows {
    windows: HashMap<u64, ChannelWindow>,
}

impl ChannelWindows {
    /// Every window is well formed.
    pub closed spec fn wf(&self) -> bool {
        forall|c: u64| #[trigger] self.windows@.contains_key(c) ==> self.windows@[c].wf()
    }

    /// The lines that the window of `channel` holds, oldest first; none for a
    /// channel not seen yet.
    pub closed spec fn window(&self, channel: u64) -> Seq<HaikuLine> {
        if self.windows@.contains_key(channel) {
            self.windows@[channel].lines()
        } else {
            Seq::empty()
        }
    }

    /// No channel seen yet.
    pub fn new() -> (r: ChannelWindows)
        ensures
            r.wf(),
            forall|c: u64| r.window(c) == Seq::<HaikuLine>::empty(),
    {
        ChannelWindows { windows: HashMap::new() }
    }

    /// Records `line` in the window of `channel`, which is created on its
    /// first line; the other windows stay as they were.
    pub fn push_line(&mut self, channel: u64, line: HaikuLine)
        requires
            old(self).wf(),
        ensures
            final(self).wf(),
            final(self).window(channel) == slide(old(self).window(channel), line),
            forall|c: u64| c != channel ==> final(self).window(c) == old(self).window(c),
    {
        let w = match self.windows.remove(&channel) {
            Some(w) => w,
            None => ChannelWindow::empty(),
        };
        let w = w.shifted(line);
        self.windows.insert(channel, w);
        assert forall|c: u64| c != channel implies self.window(c) == old(self).window(c) by {
            if self.windows@.contains_key(c) {
                assert(self.windows@[c] == old(self).windows@[c]);
            }
        }
    }

    /// Copies of the lines that the window of `channel` holds, oldest first.
    pub fn lines_of(&self, channel: u64) -> (r: Vec<HaikuLine>)
        requires
            self.wf(),
        ensures
            r@ == self.window(channel),
    {
        match self.windows.get(&channel) {
            Some(w) => w.to_vec(),
            None => Vec::new(),
        }
    }

    /// The haiku that the window of `channel` holds, if any.
    pub fn window_haiku(&self, counter: &mut SyllableCounter, channel: u64) -> (r: Option<
        [HaikuLine; 3],
    >)
        requires
            self.wf(),
            old(counter).wf(),
        ensures
            final(counter).wf(),
            final(counter).dict() == old(counter).dict(),
            match r {
                Some(ls) => window_haiku(old(counter).dict(), self.window(channel)) == Some(ls@),
                None => window_haiku(old(counter).dict(), self.window(channel)) is None,
            },
    {
        let w = match self.windows.get(&channel) {
            Some(w) => w,
            None => {
                return None;
            },
        };
        match w.full_lines() {
            Some(ls) => {
                if five_seven_five(
                    counter,
                    ls[0].content.as_str(),
                    ls[1].content.as_str(),
                    ls[2].content.as_str(),
                ) {
                    Some(ls)
                } else {
                    None
                }
            },
            None => None,
        }
    }

    /// The sliding-window recogniser: records `line` for `channel`, then
    /// tests the three lines that the window holds, each on its own.
    pub fn slide_line(
        &mut self,
        counter: &mut SyllableCounter,
        channel: u64,
        line: HaikuLine,
    ) -> (r: Option<[HaikuLine; 3]>)
        requires
            old(self).wf(),
            old(counter).wf(),
        ensures
            final(self).wf(),
            final(counter).wf(),
            final(counter).dict() == old(counter).dict(),
            final(self).window(channel) == slide(old(self).window(channel), line),
            forall|c: u64| c != channel ==> final(self).window(c) == old(self).window(c),
            match r {
                Some(ls) => window_haiku(old(counter).dict(), final(self).window(channel)) == Some(
                    ls@,
                ),
                None => window_haiku(old(counter).dict(), final(self).window(channel)) is None,
            },
    {
        self.push_line(channel, line);
        self.window_haiku(counter, channel)
    }

    /// Handles one physical line of a message in `channel` of `server`, seen
    /// at `timestamp`: records it in the channel's window, then reads the line
    /// alone as a haiku; failing that, reads the window's three lines as one.
    pub fn on_haiku_line(
        &mut self,
        counter: &mut SyllableCounter,
        channel: u64,
        server: u64,
        timestamp: i64,
        line: HaikuLine,
    ) -> (r: Option<Haiku>)
        requires
            old(self).wf(),
            old(counter).wf(),
        ensures
            final(self).wf(),
            final(counter).wf(),
            final(counter).dict() == old(counter).dict(),
            final(self).window(channel) == slide(old(self).window(channel), line),
            forall|c: u64| c != channel ==> final(self).window(c) == old(self).window(c),
            r is Some ==> r->0.channel == channel && r->0.server == server && r->0.timestamp
                == timestamp,
            match inline_haiku(old(counter).dict(), line.content@) {
                Some(Some(segs)) => r is Some && forall|i: int|
                    0 <= i < 3 ==> (#[trigger] r->0.lines@[i]).author == line.author
                        && r->0.lines@[i].content@ == segs[i],
                _ => match window_haiku(old(counter).dict(), final(self).window(channel)) {
                    Some(ls) => r is Some && r->0.lines@ == ls,
                    None => r is None,
                },
            },
    {
        let author = line.author;
        let ghost content = line.content@;
        let single = is_haiku_single(counter, line.content.as_str());
        self.push_line(channel, line);
        match single {
            Ok(Some(segs)) => {
                let lines = [
                    HaikuLine { author, content: segs[0].clone() },
                    HaikuLine { author, content: segs[1].clone() },
                    HaikuLine { author, content: segs[2].clone() },
                ];
                Some(Haiku { lines, timestamp, channel, server })
            },
            _ => match self.window_haiku(counter, channel) {
                Some(lines) => Some(Haiku { lines, timestamp, channel, server }),
                None => None,
            },
        }
    }
}

/// `after` is `before` with `line` recorded for `channel`: that window slides,
/// the others stay.
pub open spec fn recorded(
    before: ChannelWindows,
    after: ChannelWindows,
    channel: u64,
    line: HaikuLine,
) -> bool {
    &&& after.window(channel) == slide(before.window(channel), line)
    &&& forall|c: u64| c != channel ==> after.window(c) == before.window(c)
}

/// After four lines a, b, c, d arrive in a window, it holds exactly b, c, d:
/// the oldest is evicted first.
pub proof fn lemma_window_keeps_last_three(
    w: Seq<HaikuLine>,
    a: HaikuLine,
    b: HaikuLine,
    c: HaikuLine,
    d: HaikuLine,
)
    requires
        w.len() <= 3,
    ensures
        slide(slide(slide(slide(w, a), b), c), d) == seq![b, c, d],
{
    assert(slide(slide(slide(slide(w, a), b), c), d) =~= seq![b, c, d]);
}

/// A window with fewer than three lines holds no haiku.
pub proof fn lemma_short_window_no_haiku(dict: Seq<Seq<char>>, w: Seq<HaikuLine>)
    requires
        w.len() < 3,
    ensures
        window_haiku(dict, w) is None,
{
}

/// Three lines counting 5, 7 and 5 syllables, fed in turn to a channel seen
/// for the first time, give a haiku on the third line and none before.
pub proof fn lemma_haiku_on_third_line(
    dict: Seq<Seq<char>>,
    a: HaikuLine,
    b: HaikuLine,
    c: HaikuLine,
)
    requires
        line_syllables(dict, a.content@) == Some(5nat),
        line_syllables(dict, b.content@) == Some(7nat),
        line_syllables(dict, c.content@) == Some(5nat),
    ensures
        window_haiku(dict, slide(Seq::empty(), a)) is None,
        window_haiku(dict, slide(slide(Seq::empty(), a), b)) is None,
        window_haiku(dict, slide(slide(slide(Seq::empty(), a), b), c)) == Some(seq![a, b, c]),
{
    assert(slide(slide(slide(Seq::empty(), a), b), c) =~= seq![a, b, c]);
}

/// Lines that alternate between two new channels: neither window holds a
/// haiku until it has three lines of its own, and then each holds its own.
pub proof fn lemma_channels_kept_apart(
    dict: Seq<Seq<char>>,
    s0: ChannelWindows,
    s1: ChannelWindows,
    s2: ChannelWindows,
    s3: ChannelWindows,
    s4: ChannelWindows,
    s5: ChannelWindows,
    s6: ChannelWindows,
    ch1: u64,
    ch2: u64,
    a1: HaikuLine,
    b1: HaikuLine,
    c1: HaikuLine,
    a2: HaikuLine,
    b2: HaikuLine,
    c2: HaikuLine,
)
    requires
        ch1 != ch2,
        s0.window(ch1).len() == 0,
        s0.window(ch2).len() == 0,
        recorded(s0, s1, ch1, a1),
        recorded(s1, s2, ch2, a2),
        recorded(s2, s3, ch1, b1),
        recorded(s3, s4, ch2, b2),
        recorded(s4, s5, ch1, c1),
        recorded(s5, s6, ch2, c2),
        line_syllables(dict, a1.content@) == Some(5nat),
        line_syllables(dict, b1.content@) == Some(7nat),
        line_syllables(dict, c1.content@) == Some(5nat),
        line_syllables(dict, a2.content@) == Some(5nat),
        line_syllables(dict, b2.content@) == Some(7nat),
        line_syllables(dict, c2.content@) == Some(5nat),
    ensures
        window_haiku(dict, s1.window(ch1)) is None,
        window_haiku(dict, s2.window(ch2)) is None,
        window_haiku(dict, s3.window(ch1)) is None,
        window_haiku(dict, s4.window(ch2)) is None,
        window_haiku(dict, s5.window(ch1)) == Some(seq![a1, b1, c1]),
        window_haiku(dict, s6.window(ch2)) == Some(seq![a2, b2, c2]),
{
    assert(s0.window(ch1) =~= Seq::empty());
    assert(s0.window(ch2) =~= Seq::empty());
    assert(s1.window(ch2) == s0.window(ch2));
    assert(s2.window(ch1) == s1.window(ch1));
    assert(s3.window(ch2) == s2.window(ch2));
    assert(s4.window(ch1) == s3.window(ch1));
    assert(s5.window(ch2) == s4.window(ch2));
    assert(s5.window(ch1) =~= seq![a1, b1, c1]);
    assert(s6.window(ch2) =~= seq![a2, b2, c2]);
}

} // verus!
