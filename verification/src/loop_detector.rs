//! Detects, while a model streams its output, that it repeats itself or does not stop.

use crate::similarity::{jaccard, keyword_similarity, significant, Ratio};
use crate::text::{slice_text, to_chars};
use vstd::prelude::*;

verus! {

/// Why the detector fired.
#[derive(Clone, Copy, Debug, PartialEq, Eq, Structural)]
pub enum LoopReason {
    /// Windows of the output repeat the topic of the window before.
    CycleDetected,
    /// The output grew past the limit.
    HardCapHit,
}

/// Watches a stream for cycles.
///
/// The sliding window of the last `cycle_window` characters is held against the window
/// before it. Where the two share `cycle_threshold` of their significant words, a streak
/// counter goes up; at `cycle_streak_limit` a cycle is reported. Apart from that,
/// `max_total_chars` ends any stream. Below `min_total_chars` nothing fires.
#[derive(Debug)]
pub struct LoopDetector {
    /// The output so far, of which the oldest part may have been dropped.
    pub buffer: String,
    /// The size of a window, in characters.
    pub cycle_window: usize,
    /// How many checks in a row found the two windows alike.
    pub cycle_streak: usize,
    /// The streak at which a cycle is reported.
    pub cycle_streak_limit: usize,
    /// The share of words at which two windows count as alike.
    pub cycle_threshold: Ratio,
    /// Nothing fires before this many characters.
    pub min_total_chars: usize,
    /// The stream is ended at this many characters.
    pub max_total_chars: usize,
    /// The number of characters at the last check.
    pub last_check_fed: usize,
    /// The number of characters so far.
    pub fed_chars: usize,
    /// Why the detector fired, once it has.
    pub last_reason: Option<LoopReason>,
}

/// What a detector holds.
pub ghost struct DetectorV {
    pub buffer: Seq<char>,
    pub cycle_window: int,
    pub cycle_streak: int,
    pub cycle_streak_limit: int,
    pub cycle_threshold: Ratio,
    pub min_total_chars: int,
    pub max_total_chars: int,
    pub last_check_fed: int,
    pub fed_chars: int,
    pub last_reason: Option<LoopReason>,
}

impl View for LoopDetector {
    type V = DetectorV;

    open spec fn view(&self) -> DetectorV {
        DetectorV {
            buffer: self.buffer@,
            cycle_window: self.cycle_window as int,
            cycle_streak: self.cycle_streak as int,
            cycle_streak_limit: self.cycle_streak_limit as int,
            cycle_threshold: self.cycle_threshold,
            min_total_chars: self.min_total_chars as int,
            max_total_chars: self.max_total_chars as int,
            last_check_fed: self.last_check_fed as int,
            fed_chars: self.fed_chars as int,
            last_reason: self.last_reason,
        }
    }
}

/// A count, which stays at the largest number once it has reached it.
pub open spec fn counted(n: int) -> int {
    if n <= usize::MAX {
        n
    } else {
        usize::MAX as int
    }
}

/// The sum of two counts.
pub fn count_up(a: usize, b: usize) -> (r: usize)
    ensures
        r == counted(a + b),
{
    if b <= usize::MAX - a {
        a + b
    } else {
        usize::MAX
    }
}

/// Whether the last two windows of the output are alike.
pub open spec fn alike_windows(buffer: Seq<char>, w: int, threshold: Ratio) -> bool {
    let n = buffer.len() as int;
    let j = jaccard(
        significant(buffer.subrange(n - 2 * w, n - w)),
        significant(buffer.subrange(n - w, n)),
    );
    j.0 * threshold.den >= threshold.num * j.1
}

impl DetectorV {
    /// Whether a check is due: the stream has reached the floor, and has grown by a quarter
    /// of a window since the last check.
    pub open spec fn due(self) -> bool {
        self.fed_chars >= self.min_total_chars && self.fed_chars >= self.last_check_fed
            + self.cycle_window / 4
    }

    /// The check of the last two windows.
    pub open spec fn checked(self) -> DetectorV {
        let d = DetectorV { last_check_fed: self.fed_chars, ..self };
        let n = d.buffer.len() as int;
        if n < 2 * d.cycle_window {
            d
        } else {
            let alike = alike_windows(d.buffer, d.cycle_window, d.cycle_threshold);
            let streak = if alike {
                counted(d.cycle_streak + 1)
            } else {
                0
            };
            if alike && streak >= d.cycle_streak_limit {
                DetectorV {
                    cycle_streak: streak,
                    last_reason: Some(LoopReason::CycleDetected),
                    ..d
                }
            } else if n > 3 * d.cycle_window {
                DetectorV { cycle_streak: streak, buffer: d.buffer.skip(n - 2 * d.cycle_window), ..d }
            } else {
                DetectorV { cycle_streak: streak, ..d }
            }
        }
    }

    /// The detector after one more piece of output.
    pub open spec fn push(self, text: Seq<char>) -> DetectorV {
        let d = DetectorV {
            fed_chars: counted(self.fed_chars + text.len()),
            buffer: self.buffer + text,
            ..self
        };
        if text.len() == 0 {
            self
        } else if d.fed_chars >= d.max_total_chars {
            DetectorV { last_reason: Some(LoopReason::HardCapHit), ..d }
        } else if !d.due() {
            d
        } else {
            d.checked()
        }
    }

    /// The detector after several pieces of output.
    pub open spec fn push_all(self, pieces: Seq<Seq<char>>) -> DetectorV
        decreases pieces.len(),
    {
        if pieces.len() == 0 {
            self
        } else {
            self.push_all(pieces.drop_last()).push(pieces.last())
        }
    }
}

impl LoopDetector {
    /// A detector with the settings for production.
    pub fn new() -> (r: LoopDetector)
        ensures
            r.buffer@ == Seq::<char>::empty(),
            r.cycle_window == 5_000,
            r.cycle_streak == 0,
            r.cycle_streak_limit == 2,
            r.cycle_threshold == (Ratio { num: 55, den: 100 }),
            r.min_total_chars == 10_000,
            r.max_total_chars == 20_000,
            r.last_check_fed == 0,
            r.fed_chars == 0,
            r.last_reason == None::<LoopReason>,
    {
        LoopDetector {
            buffer: String::new(),
            cycle_window: 5_000,
            cycle_streak: 0,
            cycle_streak_limit: 2,
            cycle_threshold: Ratio { num: 55, den: 100 },
            min_total_chars: 10_000,
            max_total_chars: 20_000,
            last_check_fed: 0,
            fed_chars: 0,
            last_reason: None,
        }
    }

    /// Feeds a piece of output; why the detector has fired, where it has.
    pub fn push(&mut self, text: &str) -> (r: Option<LoopReason>)
        ensures
            final(self)@ == old(self)@.push(text@),
            r == final(self).last_reason,
    {
        let added: usize = to_chars(text).len();
        if added == 0 {
            return self.last_reason;
        }
        self.fed_chars = count_up(self.fed_chars, added);
        self.buffer.append(text);
        if self.fed_chars >= self.max_total_chars {
            self.last_reason = Some(LoopReason::HardCapHit);
            return self.last_reason;
        }
        let next_check: u128 = self.last_check_fed as u128 + self.cycle_window as u128 / 4;
        if self.fed_chars < self.min_total_chars || (self.fed_chars as u128) < next_check {
            return self.last_reason;
        }
        self.check();
        self.last_reason
    }

    /// Checks the last two windows.
    fn check(&mut self)
        ensures
            final(self)@ == old(self)@.checked(),
    {
        self.last_check_fed = self.fed_chars;
        let v = to_chars(self.buffer.as_str());
        let n: usize = v.len();
        let w: usize = self.cycle_window;
        if (n as u128) < 2 * w as u128 {
            return;
        }
        let recent = slice_text(&v, n - w, n);
        let earlier = slice_text(&v, n - 2 * w, n - w);
        let sim = keyword_similarity(earlier.as_str(), recent.as_str());
        if sim.reaches(self.cycle_threshold) {
            self.cycle_streak = count_up(self.cycle_streak, 1);
            if self.cycle_streak >= self.cycle_streak_limit {
                self.last_reason = Some(LoopReason::CycleDetected);
                return;
            }
        } else {
            self.cycle_streak = 0;
        }
        if n as u128 > 3 * w as u128 {
            self.buffer = slice_text(&v, n - 2 * w, n);
            assert(self.buffer@ =~= v@.skip(n - 2 * w));
        }
    }
}

impl Default for LoopDetector {
    fn default() -> (r: LoopDetector)
        ensures
            call_ensures(LoopDetector::new, (), r),
    {
        LoopDetector::new()
    }
}

impl Clone for LoopDetector {
    fn clone(&self) -> (r: LoopDetector)
        ensures
            r@ == self@,
    {
        LoopDetector {
            buffer: self.buffer.clone(),
            cycle_window: self.cycle_window,
            cycle_streak: self.cycle_streak,
            cycle_streak_limit: self.cycle_streak_limit,
            cycle_threshold: self.cycle_threshold,
            min_total_chars: self.min_total_chars,
            max_total_chars: self.max_total_chars,
            last_check_fed: self.last_check_fed,
            fed_chars: self.fed_chars,
            last_reason: self.last_reason,
        }
    }
}

/// A detector that has fired stays fired, whatever it is fed.
pub proof fn lemma_firing_is_final(d: DetectorV, pieces: Seq<Seq<char>>)
    requires
        d.last_reason is Some,
    ensures
        d.push_all(pieces).last_reason is Some,
    decreases pieces.len(),
{
    if pieces.len() > 0 {
        lemma_firing_is_final(d, pieces.drop_last());
    }
}

/// The number of characters fed is the number that came in.
pub proof fn lemma_every_char_is_counted(d: DetectorV, pieces: Seq<Seq<char>>)
    requires
        d.fed_chars + pieces.flatten().len() <= usize::MAX,
    ensures
        d.push_all(pieces).fed_chars == d.fed_chars + pieces.flatten().len(),
        d.push_all(pieces).max_total_chars == d.max_total_chars,
        d.push_all(pieces).min_total_chars == d.min_total_chars,
    decreases pieces.len(),
{
    if pieces.len() == 0 {
        assert(pieces.flatten().len() == 0);
    } else {
        let head = pieces.drop_last();
        assert(pieces =~= head.push(pieces.last()));
        head.lemma_flatten_push(pieces.last());
        lemma_every_char_is_counted(d, head);
    }
}

/// No stream goes on past the limit: at the piece that reaches it the detector has fired.
pub proof fn lemma_hard_cap(d: DetectorV, pieces: Seq<Seq<char>>)
    requires
        d.fed_chars < d.max_total_chars <= usize::MAX,
        d.fed_chars + pieces.flatten().len() >= d.max_total_chars,
    ensures
        d.push_all(pieces).last_reason is Some,
    decreases pieces.len(),
{
    if pieces.len() > 0 {
        let head = pieces.drop_last();
        assert(pieces =~= head.push(pieces.last()));
        head.lemma_flatten_push(pieces.last());
        if d.fed_chars + head.flatten().len() >= d.max_total_chars {
            lemma_hard_cap(d, head);
            assert(d.push_all(head).push(pieces.last()).last_reason is Some);
        } else {
            lemma_every_char_is_counted(d, head);
        }
    } else {
        assert(pieces.flatten().len() == 0);
    }
}

/// Below the floor nothing fires.
pub proof fn lemma_floor(d: DetectorV, pieces: Seq<Seq<char>>)
    requires
        d.last_reason is None,
        d.fed_chars + pieces.flatten().len() < d.min_total_chars,
        d.min_total_chars <= d.max_total_chars <= usize::MAX,
    ensures
        d.push_all(pieces).last_reason is None,
    decreases pieces.len(),
{
    lemma_every_char_is_counted(d, pieces);
    if pieces.len() > 0 {
        let head = pieces.drop_last();
        assert(pieces =~= head.push(pieces.last()));
        head.lemma_flatten_push(pieces.last());
        lemma_every_char_is_counted(d, head);
        lemma_floor(d, head);
    }
}

} // verus!
