//! Key remapping: rules that rewrite one key into a sequence of keys.
//!
//! The rules come in levels. A key passes through the levels in order, as a
//! queue of keys that starts with the key alone. Each level first rewrites the
//! queue by its `recurse` rules, scan after scan, until a scan finds nothing
//! to rewrite; then it rewrites the queue once by its `fall` rules.

use crate::key::{same_key, KeyEvent};
use vstd::prelude::*;

verus! {

/// The editor's mode.
#[derive(Clone, Copy, Debug, PartialEq, Eq, Structural)]
pub enum Mode {
    Insert,
    Command,
}

/// The mode that a rule asks for.
#[derive(Clone, Copy, Debug, PartialEq, Eq, Structural)]
pub enum ModeReq {
    Any,
    Insert,
    Command,
}

/// One rule: in a mode that `mode_req` admits, the key `pattern` becomes the
/// keys of `result`.
pub struct KeyMap {
    pub pattern: KeyEvent,
    pub result: Vec<KeyEvent>,
    pub mode_req: ModeReq,
}

/// One level of rules.
pub struct KeyLevel {
    pub recurse: Vec<KeyMap>,
    pub fall: Vec<KeyMap>,
}

/// All the levels, in the order in which a key passes through them.
pub struct KeyLevels {
    pub levels: Vec<KeyLevel>,
}

impl ModeReq {
    /// Whether a rule with this requirement applies in `mode`.
    pub open spec fn admits(self, mode: Mode) -> bool {
        match self {
            ModeReq::Any => true,
            ModeReq::Insert => mode == Mode::Insert,
            ModeReq::Command => mode == Mode::Command,
        }
    }

    /// Whether a rule with this requirement applies in `mode`: `Any` always
    /// does, the others in the mode of their name.
    pub fn matches(&self, mode: Mode) -> (r: bool)
        ensures
            r == self.admits(mode),
    {
        match self {
            ModeReq::Any => true,
            ModeReq::Insert => mode == Mode::Insert,
            ModeReq::Command => mode == Mode::Command,
        }
    }
}

/// Whether `rule` rewrites `item` in `mode`.
pub open spec fn applies(rule: KeyMap, mode: Mode, item: KeyEvent) -> bool {
    rule.mode_req.admits(mode) && same_key(rule.pattern, item)
}

/// Index of the first rule from index `from` on that rewrites `item`.
pub open spec fn first_match_from(rules: Seq<KeyMap>, mode: Mode, item: KeyEvent, from: int) -> Option<
    int,
>
    decreases rules.len() - from,
{
    if from < 0 || from >= rules.len() {
        None
    } else if applies(rules[from], mode, item) {
        Some(from)
    } else {
        first_match_from(rules, mode, item, from + 1)
    }
}

/// Index of the first rule that rewrites `item`.
pub open spec fn first_match(rules: Seq<KeyMap>, mode: Mode, item: KeyEvent) -> Option<int> {
    first_match_from(rules, mode, item, 0)
}

/// What `item` becomes: the result of the first rule that rewrites it, or
/// `item` itself where no rule does.
pub open spec fn rewrite(rules: Seq<KeyMap>, mode: Mode, item: KeyEvent) -> Seq<KeyEvent> {
    match first_match(rules, mode, item) {
        Some(i) => rules[i].result@,
        None => seq![item],
    }
}

/// One scan: every item of the queue rewritten, in order.
pub open spec fn scan(rules: Seq<KeyMap>, mode: Mode, queue: Seq<KeyEvent>) -> Seq<KeyEvent>
    decreases queue.len(),
{
    if queue.len() == 0 {
        Seq::empty()
    } else {
        scan(rules, mode, queue.drop_last()) + rewrite(rules, mode, queue.last())
    }
}

/// Whether a scan finds an item to rewrite.
pub open spec fn any_match(rules: Seq<KeyMap>, mode: Mode, queue: Seq<KeyEvent>) -> bool {
    exists|i: int| 0 <= i < queue.len() && first_match(rules, mode, #[trigger] queue[i]) is Some
}

/// Whether at most `scans` rewriting scans bring the queue to rest.
pub open spec fn settles_in(rules: Seq<KeyMap>, mode: Mode, queue: Seq<KeyEvent>, scans: nat) -> bool
    decreases scans,
{
    !any_match(rules, mode, queue) || (scans > 0 && settles_in(
        rules,
        mode,
        scan(rules, mode, queue),
        (scans - 1) as nat,
    ))
}

/// Whether repeated scans bring the queue to rest at all. Rules that lead
/// back to a key that they rewrite never do.
pub open spec fn settles(rules: Seq<KeyMap>, mode: Mode, queue: Seq<KeyEvent>) -> bool {
    exists|scans: nat| settles_in(rules, mode, queue, scans)
}

/// The queue after at most `scans` rewriting scans, stopping early once
/// nothing is left to rewrite.
pub open spec fn rest_in(rules: Seq<KeyMap>, mode: Mode, queue: Seq<KeyEvent>, scans: nat) -> Seq<
    KeyEvent,
>
    decreases scans,
{
    if scans == 0 || !any_match(rules, mode, queue) {
        queue
    } else {
        rest_in(rules, mode, scan(rules, mode, queue), (scans - 1) as nat)
    }
}

/// The queue at rest: rewritten scan after scan until nothing is left to
/// rewrite. It means something only where the queue settles.
pub open spec fn rest(rules: Seq<KeyMap>, mode: Mode, queue: Seq<KeyEvent>) -> Seq<KeyEvent> {
    rest_in(rules, mode, queue, choose|scans: nat| settles_in(rules, mode, queue, scans))
}

/// What one level makes of a queue: the queue at rest under the `recurse`
/// rules, scanned once with the `fall` rules.
pub open spec fn level_out(level: KeyLevel, mode: Mode, queue: Seq<KeyEvent>) -> Seq<KeyEvent> {
    scan(level.fall@, mode, rest(level.recurse@, mode, queue))
}

/// Whether the queue settles at every level from level `from` on, each level
/// taking the queue that the level before hands on.
pub open spec fn resolves_from(levels: Seq<KeyLevel>, mode: Mode, queue: Seq<KeyEvent>, from: int) -> bool
    decreases levels.len() - from,
{
    if from < 0 || from >= levels.len() {
        true
    } else {
        settles(levels[from].recurse@, mode, queue) && resolves_from(
            levels,
            mode,
            level_out(levels[from], mode, queue),
            from + 1,
        )
    }
}

/// The queue after the levels from level `from` on.
pub open spec fn resolve_from(levels: Seq<KeyLevel>, mode: Mode, queue: Seq<KeyEvent>, from: int) -> Seq<
    KeyEvent,
>
    decreases levels.len() - from,
{
    if from < 0 || from >= levels.len() {
        queue
    } else {
        resolve_from(levels, mode, level_out(levels[from], mode, queue), from + 1)
    }
}

/// The queue after the levels from level `from` on, where no level is allowed
/// more than `scans` rewriting scans; `None` where some level needs more.
pub open spec fn resolve_within_from(
    levels: Seq<KeyLevel>,
    mode: Mode,
    queue: Seq<KeyEvent>,
    from: int,
    scans: nat,
) -> Option<Seq<KeyEvent>>
    decreases levels.len() - from,
{
    if from < 0 || from >= levels.len() {
        Some(queue)
    } else if settles_in(levels[from].recurse@, mode, queue, scans) {
        resolve_within_from(
            levels,
            mode,
            scan(levels[from].fall@, mode, rest_in(levels[from].recurse@, mode, queue, scans)),
            from + 1,
            scans,
        )
    } else {
        None
    }
}

/// The keys that `event` resolves to where no level is allowed more than
/// `scans` rewriting scans; `None` where some level needs more.
pub open spec fn resolve_within(levels: Seq<KeyLevel>, mode: Mode, event: KeyEvent, scans: nat) -> Option<
    Seq<KeyEvent>,
> {
    resolve_within_from(levels, mode, seq![event], 0, scans)
}

/// Whether resolving `event` comes to an end.
pub open spec fn resolves(levels: Seq<KeyLevel>, mode: Mode, event: KeyEvent) -> bool {
    resolves_from(levels, mode, seq![event], 0)
}

/// The keys that `event` resolves to.
pub open spec fn resolve(levels: Seq<KeyLevel>, mode: Mode, event: KeyEvent) -> Seq<KeyEvent> {
    resolve_from(levels, mode, seq![event], 0)
}

/// Whether no rule of any level rewrites `event` in `mode`.
pub open spec fn untouched(levels: Seq<KeyLevel>, mode: Mode, event: KeyEvent) -> bool {
    forall|i: int|
        0 <= i < levels.len() ==> first_match((#[trigger] levels[i]).recurse@, mode, event) is None
            && first_match(levels[i].fall@, mode, event) is None
}

/// A scan that finds nothing to rewrite leaves the queue as it is.
pub proof fn lemma_scan_without_match(rules: Seq<KeyMap>, mode: Mode, queue: Seq<KeyEvent>)
    requires
        !any_match(rules, mode, queue),
    ensures
        scan(rules, mode, queue) == queue,
    decreases queue.len(),
{
    if queue.len() > 0 {
        let front = queue.drop_last();
        assert forall|i: int| 0 <= i < front.len() implies first_match(
            rules,
            mode,
            #[trigger] front[i],
        ) is None by {
            assert(front[i] == queue[i]);
        }
        lemma_scan_without_match(rules, mode, front);
        assert(first_match(rules, mode, queue[queue.len() - 1]) is None);
        assert(scan(rules, mode, queue) =~= queue);
    } else {
        assert(scan(rules, mode, queue) =~= queue);
    }
}

/// Once the queue has come to rest, more scans change nothing: the queue at
/// rest does not depend on how many scans were allowed beyond those needed.
pub proof fn lemma_rest_in_any(rules: Seq<KeyMap>, mode: Mode, queue: Seq<KeyEvent>, a: nat, b: nat)
    requires
        settles_in(rules, mode, queue, a),
        settles_in(rules, mode, queue, b),
    ensures
        rest_in(rules, mode, queue, a) == rest_in(rules, mode, queue, b),
        !any_match(rules, mode, rest_in(rules, mode, queue, a)),
    decreases a,
{
    if any_match(rules, mode, queue) {
        lemma_rest_in_any(rules, mode, scan(rules, mode, queue), (a - 1) as nat, (b - 1) as nat);
    }
}

/// Where the queue settles, the queue at rest holds nothing to rewrite, and
/// it is what any sufficient number of scans yields.
pub proof fn lemma_rest(rules: Seq<KeyMap>, mode: Mode, queue: Seq<KeyEvent>, scans: nat)
    requires
        settles_in(rules, mode, queue, scans),
    ensures
        settles(rules, mode, queue),
        rest(rules, mode, queue) == rest_in(rules, mode, queue, scans),
        !any_match(rules, mode, rest(rules, mode, queue)),
{
    let chosen = choose|n: nat| settles_in(rules, mode, queue, n);
    lemma_rest_in_any(rules, mode, queue, chosen, scans);
}

/// Where a bound on the scans is enough, resolving comes to an end, and the
/// bound makes no difference to what comes out.
pub proof fn lemma_within_is_resolve(
    levels: Seq<KeyLevel>,
    mode: Mode,
    queue: Seq<KeyEvent>,
    from: int,
    scans: nat,
)
    requires
        0 <= from,
        resolve_within_from(levels, mode, queue, from, scans) is Some,
    ensures
        resolves_from(levels, mode, queue, from),
        resolve_from(levels, mode, queue, from) == resolve_within_from(
            levels,
            mode,
            queue,
            from,
            scans,
        )->0,
    decreases levels.len() - from,
{
    if from < levels.len() {
        let level = levels[from];
        lemma_rest(level.recurse@, mode, queue, scans);
        lemma_within_is_resolve(levels, mode, level_out(level, mode, queue), from + 1, scans);
    }
}

/// A key that no rule of any level rewrites passes through as itself:
/// resolving it comes to an end, and yields that key alone.
pub proof fn lemma_untouched_passes(levels: Seq<KeyLevel>, mode: Mode, event: KeyEvent)
    requires
        untouched(levels, mode, event),
    ensures
        resolves(levels, mode, event),
        resolve(levels, mode, event) == seq![event],
{
    lemma_untouched_from(levels, mode, event, 0);
}

/// `lemma_untouched_passes`, from any level on.
pub proof fn lemma_untouched_from(levels: Seq<KeyLevel>, mode: Mode, event: KeyEvent, from: int)
    requires
        untouched(levels, mode, event),
        0 <= from,
    ensures
        resolves_from(levels, mode, seq![event], from),
        resolve_from(levels, mode, seq![event], from) == seq![event],
    decreases levels.len() - from,
{
    if from < levels.len() {
        let level = levels[from];
        let queue = seq![event];
        assert(!any_match(level.recurse@, mode, queue));
        assert(settles_in(level.recurse@, mode, queue, 0));
        lemma_rest(level.recurse@, mode, queue, 0);
        assert(!any_match(level.fall@, mode, queue));
        lemma_scan_without_match(level.fall@, mode, queue);
        lemma_untouched_from(levels, mode, event, from + 1);
    }
}

/// Rewrites one item of the queue: appends to `out` what the first rule that
/// rewrites `item` makes of it, or `item` itself where no rule does. Says
/// whether a rule did.
fn rewrite_item(rules: &Vec<KeyMap>, mode: Mode, item: KeyEvent, out: &mut Vec<KeyEvent>) -> (replaced:
    bool)
    ensures
        final(out)@ == old(out)@ + rewrite(rules@, mode, item),
        replaced == first_match(rules@, mode, item) is Some,
{
    let mut k: usize = 0;
    while k < rules.len()
        invariant
            k <= rules.len(),
            out@ == old(out)@,
            first_match_from(rules@, mode, item, k as int) == first_match(rules@, mode, item),
        decreases rules.len() - k,
    {
        let line = &rules[k];
        if line.mode_req.matches(mode) && line.pattern == item {
            let mut j: usize = 0;
            while j < line.result.len()
                invariant
                    j <= line.result.len(),
                    out@ == old(out)@ + line.result@.take(j as int),
                decreases line.result.len() - j,
            {
                out.push(line.result[j]);
                assert(line.result@.take(j + 1) =~= line.result@.take(j as int).push(line.result@[j as int]));
                j += 1;
            }
            assert(line.result@.take(line.result@.len() as int) =~= line.result@);
            return true;
        }
        k += 1;
    }
    out.push(item);
    assert(out@ =~= old(out)@ + seq![item]);
    false
}

/// One scan of the queue with `rules`. Says whether any item was rewritten.
fn scan_queue(rules: &Vec<KeyMap>, mode: Mode, queue: &Vec<KeyEvent>) -> (r: (Vec<KeyEvent>, bool))
    ensures
        r.0@ == scan(rules@, mode, queue@),
        r.1 == any_match(rules@, mode, queue@),
{
    let mut out: Vec<KeyEvent> = Vec::new();
    let mut flag = false;
    let mut i: usize = 0;
    while i < queue.len()
        invariant
            i <= queue.len(),
            out@ == scan(rules@, mode, queue@.take(i as int)),
            flag == any_match(rules@, mode, queue@.take(i as int)),
        decreases queue.len() - i,
    {
        let ghost done = queue@.take(i as int);
        let ghost next = queue@.take(i + 1);
        let replaced = rewrite_item(rules, mode, queue[i], &mut out);
        proof {
            assert(next.drop_last() =~= done);
            assert(next.last() == queue@[i as int]);
            if any_match(rules@, mode, done) {
                let w = choose|w: int|
                    0 <= w < done.len() && first_match(rules@, mode, #[trigger] done[w]) is Some;
                assert(next[w] == done[w]);
            }
            if replaced {
                assert(first_match(rules@, mode, next[i as int]) is Some);
            }
            if any_match(rules@, mode, next) {
                let w = choose|w: int|
                    0 <= w < next.len() && first_match(rules@, mode, #[trigger] next[w]) is Some;
                if w < i {
                    assert(done[w] == next[w]);
                }
            }
        }
        if replaced {
            flag = true;
        }
        i += 1;
    }
    assert(queue@.take(queue@.len() as int) =~= queue@);
    (out, flag)
}

impl KeyLevels {
    /// Resolves `event` as `map_keys` does, but gives up on a level whose
    /// `recurse` rules have not come to rest after `scans` rewriting scans.
    /// It returns `None` then, and only then; otherwise the keys that
    /// `map_keys` returns.
    pub fn map_keys_within(&self, event: KeyEvent, current_mode: Mode, scans: usize) -> (keys: Option<
        Vec<KeyEvent>,
    >)
        ensures
            match keys {
                Some(k) => resolve_within(self.levels@, current_mode, event, scans as nat) == Some(
                    k@,
                ) && resolves(self.levels@, current_mode, event) && k@ == resolve(
                    self.levels@,
                    current_mode,
                    event,
                ),
                None => resolve_within(self.levels@, current_mode, event, scans as nat) is None,
            },
    {
        let mut queue: Vec<KeyEvent> = Vec::new();
        queue.push(event);
        assert(queue@ =~= seq![event]);
        let mut l: usize = 0;
        while l < self.levels.len()
            invariant
                l <= self.levels.len(),
                resolve_within_from(self.levels@, current_mode, queue@, l as int, scans as nat)
                    == resolve_within(self.levels@, current_mode, event, scans as nat),
            decreases self.levels.len() - l,
        {
            let level = &self.levels[l];
            let ghost start = queue@;
            let mut left: usize = scans;
            loop
                invariant_except_break
                    left <= scans,
                    settles_in(level.recurse@, current_mode, queue@, left as nat) == settles_in(
                        level.recurse@,
                        current_mode,
                        start,
                        scans as nat,
                    ),
                    rest_in(level.recurse@, current_mode, queue@, left as nat) == rest_in(
                        level.recurse@,
                        current_mode,
                        start,
                        scans as nat,
                    ),
                invariant
                    l < self.levels.len(),
                    *level == self.levels@[l as int],
                    resolve_within_from(self.levels@, current_mode, start, l as int, scans as nat)
                        == resolve_within(self.levels@, current_mode, event, scans as nat),
                ensures
                    settles_in(level.recurse@, current_mode, start, scans as nat),
                    queue@ == rest_in(level.recurse@, current_mode, start, scans as nat),
                decreases left,
            {
                let (next, flag) = scan_queue(&level.recurse, current_mode, &queue);
                proof {
                    if !flag {
                        lemma_scan_without_match(level.recurse@, current_mode, queue@);
                    }
                }
                if !flag {
                    break ;
                }
                if left == 0 {
                    return None;
                }
                queue = next;
                left -= 1;
            }
            let (next, _) = scan_queue(&level.fall, current_mode, &queue);
            queue = next;
            l += 1;
        }
        proof {
            lemma_within_is_resolve(self.levels@, current_mode, seq![event], 0, scans as nat);
        }
        Some(queue)
    }

    /// Resolves `event` into the keys that the rules make of it in
    /// `current_mode`.
    ///
    /// Each level rewrites the queue with its `recurse` rules until a scan
    /// rewrites nothing, then once with its `fall` rules; for each item the
    /// first rule in order that admits the mode and whose pattern is the item
    /// wins. A key that no rule rewrites comes out as itself.
    ///
    /// The rules must let the rewriting end: `recurse` rules that lead back
    /// to a key they rewrite would go on for ever.
    pub fn map_keys(&self, event: KeyEvent, current_mode: Mode) -> (keys: Vec<KeyEvent>)
        requires
            resolves(self.levels@, current_mode, event),
        ensures
            keys@ == resolve(self.levels@, current_mode, event),
    {
        let mut queue: Vec<KeyEvent> = Vec::new();
        queue.push(event);
        assert(queue@ =~= seq![event]);
        let mut l: usize = 0;
        while l < self.levels.len()
            invariant
                l <= self.levels.len(),
                resolves_from(self.levels@, current_mode, queue@, l as int),
                resolve_from(self.levels@, current_mode, queue@, l as int) == resolve(
                    self.levels@,
                    current_mode,
                    event,
                ),
            decreases self.levels.len() - l,
        {
            let level = &self.levels[l];
            let ghost start = queue@;
            let ghost mut scans: nat = choose|n: nat|
                settles_in(level.recurse@, current_mode, start, n);
            proof {
                lemma_rest(level.recurse@, current_mode, start, scans);
            }
            loop
                invariant_except_break
                    settles_in(level.recurse@, current_mode, queue@, scans),
                    rest_in(level.recurse@, current_mode, queue@, scans) == rest(
                        level.recurse@,
                        current_mode,
                        start,
                    ),
                ensures
                    queue@ == rest(level.recurse@, current_mode, start),
                decreases scans,
            {
                let (next, flag) = scan_queue(&level.recurse, current_mode, &queue);
                proof {
                    if !flag {
                        lemma_scan_without_match(level.recurse@, current_mode, queue@);
                    }
                }
                queue = next;
                if !flag {
                    break ;
                }
                proof {
                    scans = (scans - 1) as nat;
                }
            }
            let (next, _) = scan_queue(&level.fall, current_mode, &queue);
            queue = next;
            l += 1;
        }
        queue
    }
}

} // verus!
