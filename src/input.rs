use crate::key::KeyCode;
use vstd::prelude::*;

verus! {

/// The key that cycles the patch instead of playing a note.
pub open spec fn is_patch_key(k: KeyCode) -> bool {
    k == KeyCode::B
}

/// The chords that end the session: escape, or left control with C.
pub open spec fn is_quit_chord(keys: Seq<KeyCode>) -> bool {
    keys.contains(KeyCode::Escape) || (keys.contains(KeyCode::C) && keys.contains(
        KeyCode::LControl,
    ))
}

/// Two key lists hold the same keys.
pub open spec fn same_keys(a: Seq<KeyCode>, b: Seq<KeyCode>) -> bool {
    forall|k: KeyCode| a.contains(k) <==> b.contains(k)
}

pub fn is_patch_keycode(k: KeyCode) -> (r: bool)
    ensures
        r == is_patch_key(k),
{
    match k {
        KeyCode::B => true,
        _ => false,
    }
}

pub fn contains_key(keys: &Vec<KeyCode>, k: KeyCode) -> (r: bool)
    ensures
        r == keys@.contains(k),
{
    let mut i: usize = 0;
    while i < keys.len()
        invariant
            0 <= i <= keys@.len(),
            forall|j: int| 0 <= j < i ==> keys@[j] != k,
        decreases keys@.len() - i,
    {
        if keys[i] == k {
            return true;
        }
        i = i + 1;
    }
    false
}

/// Which keys a filtered list keeps: those outside `exclude`, and, with
/// `drop_patch_key`, not the patch key.
pub open spec fn kept_keys(exclude: Seq<KeyCode>, drop_patch_key: bool) -> spec_fn(KeyCode) -> bool {
    |k: KeyCode| !exclude.contains(k) && !(drop_patch_key && is_patch_key(k))
}

/// The keys of `s` that `keep` keeps, each once, in the order of their first
/// appearance.
pub open spec fn distinct(s: Seq<KeyCode>, keep: spec_fn(KeyCode) -> bool) -> Seq<KeyCode>
    decreases s.len(),
{
    if s.len() == 0 {
        s
    } else {
        let d = distinct(s.drop_last(), keep);
        if keep(s.last()) && !d.contains(s.last()) {
            d.push(s.last())
        } else {
            d
        }
    }
}

/// A distinct list holds each kept key of its source once, and nothing else.
pub proof fn lemma_distinct(s: Seq<KeyCode>, keep: spec_fn(KeyCode) -> bool)
    ensures
        distinct(s, keep).no_duplicates(),
        distinct(s, keep).len() <= s.len(),
        forall|k: KeyCode| #[trigger] distinct(s, keep).contains(k) <==> s.contains(k) && keep(k),
    decreases s.len(),
{
    if s.len() > 0 {
        let rest = s.drop_last();
        lemma_distinct(rest, keep);
        let d = distinct(rest, keep);
        let x = s.last();
        assert forall|k: KeyCode| #[trigger] distinct(s, keep).contains(k) <==> s.contains(k) && keep(k) by {
            if s.contains(k) && k != x {
                let m = choose|m: int| 0 <= m < s.len() && s[m] == k;
                assert(rest[m] == k);
            }
            if rest.contains(k) {
                let m = choose|m: int| 0 <= m < rest.len() && rest[m] == k;
                assert(s[m] == k);
            }
            if keep(x) && !d.contains(x) {
                assert(d.push(x)[d.len() as int] == x);
                if d.push(x).contains(k) && k != x {
                    let m = choose|m: int| 0 <= m < d.push(x).len() && d.push(x)[m] == k;
                    assert(d[m] == k);
                }
                if d.contains(k) {
                    let m = choose|m: int| 0 <= m < d.len() && d[m] == k;
                    assert(d.push(x)[m] == k);
                }
            }
            assert(s[s.len() - 1] == x);
        }
        if keep(x) && !d.contains(x) {
            assert forall|a: int, b: int| 0 <= a < b < d.len() + 1 implies d.push(x)[a] != d.push(x)[b] by {
                if b == d.len() {
                    assert(d.contains(d[a]));
                }
            }
        }
    }
}

/// The keys of `keys` outside `exclude` (and, with `drop_patch_key`, other
/// than the patch key), each once, in the order of their first appearance.
pub fn distinct_where(keys: &Vec<KeyCode>, exclude: &Vec<KeyCode>, drop_patch_key: bool) -> (r: Vec<KeyCode>)
    ensures
        r@ == distinct(keys@, kept_keys(exclude@, drop_patch_key)),
        r@.no_duplicates(),
        forall|k: KeyCode| #[trigger]
            r@.contains(k) <==> keys@.contains(k) && !exclude@.contains(k) && !(drop_patch_key
                && is_patch_key(k)),
{
    let ghost keep = kept_keys(exclude@, drop_patch_key);
    let mut out: Vec<KeyCode> = Vec::new();
    let mut i: usize = 0;
    while i < keys.len()
        invariant
            0 <= i <= keys@.len(),
            keep == kept_keys(exclude@, drop_patch_key),
            out@ == distinct(keys@.take(i as int), keep),
        decreases keys@.len() - i,
    {
        let k = keys[i];
        proof {
            assert(keys@.take(i as int + 1).drop_last() =~= keys@.take(i as int));
            assert(keys@.take(i as int + 1).last() == k);
        }
        if !contains_key(exclude, k) && !(drop_patch_key && is_patch_keycode(k)) && !contains_key(&out, k) {
            out.push(k);
        }
        i = i + 1;
    }
    proof {
        assert(keys@.take(keys@.len() as int) =~= keys@);
        lemma_distinct(keys@, keep);
    }
    out
}

/// The keys of a snapshot, each once, in the order of their first
/// appearance; with `drop_patch_key`, the patch key left out.
pub fn distinct_keys(now: &Vec<KeyCode>, drop_patch_key: bool) -> (r: Vec<KeyCode>)
    ensures
        r@ == distinct(now@, kept_keys(Seq::empty(), drop_patch_key)),
        r@.no_duplicates(),
        drop_patch_key ==> forall|i: int| 0 <= i < r@.len() ==> !is_patch_key(#[trigger] r@[i]),
        forall|k: KeyCode| #[trigger]
            r@.contains(k) <==> now@.contains(k) && !(drop_patch_key && is_patch_key(k)),
{
    let none: Vec<KeyCode> = Vec::new();
    let r = distinct_where(now, &none, drop_patch_key);
    proof {
        assert forall|i: int| 0 <= i < r@.len() implies drop_patch_key ==> !is_patch_key(#[trigger] r@[i]) by {
            assert(r@.contains(r@[i]));
        }
    }
    r
}

/// Whether two key lists hold the same keys, whatever their order.
pub fn same_key_set(a: &Vec<KeyCode>, b: &Vec<KeyCode>) -> (r: bool)
    ensures
        r == same_keys(a@, b@),
{
    let mut i: usize = 0;
    while i < a.len()
        invariant
            0 <= i <= a@.len(),
            forall|j: int| 0 <= j < i ==> b@.contains(#[trigger] a@[j]),
        decreases a@.len() - i,
    {
        if !contains_key(b, a[i]) {
            assert(!same_keys(a@, b@)) by {
                assert(a@.contains(a@[i as int]));
            }
            return false;
        }
        i = i + 1;
    }
    let mut i: usize = 0;
    while i < b.len()
        invariant
            0 <= i <= b@.len(),
            forall|j: int| 0 <= j < a@.len() ==> b@.contains(#[trigger] a@[j]),
            forall|j: int| 0 <= j < i ==> a@.contains(#[trigger] b@[j]),
        decreases b@.len() - i,
    {
        if !contains_key(a, b[i]) {
            assert(!same_keys(a@, b@)) by {
                assert(b@.contains(b@[i as int]));
            }
            return false;
        }
        i = i + 1;
    }
    assert forall|k: KeyCode| a@.contains(k) <==> b@.contains(k) by {
        if a@.contains(k) {
            let j = choose|j: int| 0 <= j < a@.len() && a@[j] == k;
        }
        if b@.contains(k) {
            let j = choose|j: int| 0 <= j < b@.len() && b@[j] == k;
        }
    }
    true
}

/// What the key poller hands to the engine.
#[derive(Debug, Clone, PartialEq, Eq)]
pub enum InputEvent {
    /// The held keys changed from `prev` to `now`; `toggle` tells that the
    /// patch key has just gone down.
    Keys { now: Vec<KeyCode>, prev: Vec<KeyCode>, toggle: bool },
    /// A quit chord was pressed.
    Quit,
}

/// `r` reports a change of the held keys from `prev` to `now`.
pub open spec fn keys_event(
    r: Option<InputEvent>,
    now: Seq<KeyCode>,
    prev: Seq<KeyCode>,
    toggle: bool,
) -> bool {
    match r {
        Some(InputEvent::Keys { now: n, prev: p, toggle: t }) => n@ == now && p@ == prev && t
            == toggle,
        _ => false,
    }
}

/// Turns successive snapshots of the pressed keys into changes of the held
/// keys, and keeps the application silent while it does not have the focus.
#[derive(Debug)]
pub struct Reconciler {
    pub prev: Vec<KeyCode>,
    pub was_focused: bool,
}

impl Reconciler {
    pub open spec fn wf(self) -> bool {
        self.prev@.no_duplicates()
    }

    /// A poller that has the focus and has seen no key yet.
    pub fn new() -> (r: Reconciler)
        ensures
            r.wf(),
            r.prev@ == Seq::<KeyCode>::empty(),
            r.was_focused,
    {
        Reconciler { prev: Vec::new(), was_focused: true }
    }

    /// One poll: `focused` tells whether the application has the focus,
    /// `pressed` which keys are down.
    ///
    /// On losing the focus every tracked key is let go at once (one change to
    /// no keys), and nothing more is reported until the focus returns. On
    /// regaining it the pressed keys become the baseline without a change
    /// being reported, so keys held across the gap do not sound again.
    /// Otherwise a quit chord ends the session, and any other difference
    /// from the last snapshot is reported.
    pub fn tick(&mut self, focused: bool, pressed: &Vec<KeyCode>) -> (r: Option<InputEvent>)
        requires
            old(self).wf(),
        ensures
            final(self).wf(),
            !focused && old(self).was_focused && old(self).prev@.len() > 0 ==> keys_event(
                r,
                Seq::empty(),
                old(self).prev@,
                false,
            ) && final(self).prev@ == Seq::<KeyCode>::empty() && !final(self).was_focused,
            !focused && old(self).was_focused && old(self).prev@.len() == 0 ==> r is None
                && final(self).prev@ == Seq::<KeyCode>::empty() && !final(self).was_focused,
            !focused && !old(self).was_focused ==> r is None && final(self).prev@ == old(
                self,
            ).prev@ && !final(self).was_focused,
            focused && !old(self).was_focused ==> r is None && final(self).was_focused
                && same_keys(final(self).prev@, pressed@),
            focused && old(self).was_focused && is_quit_chord(pressed@) ==> r == Some(
                InputEvent::Quit,
            ) && final(self).prev@ == old(self).prev@ && final(self).was_focused,
            focused && old(self).was_focused && !is_quit_chord(pressed@) && same_keys(
                pressed@,
                old(self).prev@,
            ) ==> r is None && final(self).prev@ == old(self).prev@ && final(self).was_focused,
            focused && old(self).was_focused && !is_quit_chord(pressed@) && !same_keys(
                pressed@,
                old(self).prev@,
            ) ==> final(self).was_focused && same_keys(final(self).prev@, pressed@) && keys_event(
                r,
                final(self).prev@,
                old(self).prev@,
                pressed@.contains(KeyCode::B) && !old(self).prev@.contains(KeyCode::B),
            ),
    {
        if !focused {
            if self.was_focused {
                self.was_focused = false;
                if self.prev.len() > 0 {
                    let prev = self.prev.clone();
                    assert(prev@ =~= self.prev@);
                    self.prev = Vec::new();
                    return Some(InputEvent::Keys { now: Vec::new(), prev, toggle: false });
                }
            }
            return None;
        }
        if !self.was_focused {
            self.prev = distinct_keys(pressed, false);
            self.was_focused = true;
            return None;
        }
        if contains_key(pressed, KeyCode::Escape) || (contains_key(pressed, KeyCode::C)
            && contains_key(pressed, KeyCode::LControl)) {
            return Some(InputEvent::Quit);
        }
        if same_key_set(pressed, &self.prev) {
            return None;
        }
        let toggle = contains_key(pressed, KeyCode::B) && !contains_key(&self.prev, KeyCode::B);
        let now = distinct_keys(pressed, false);
        let prev = self.prev.clone();
        assert(prev@ =~= self.prev@);
        self.prev = now.clone();
        assert(self.prev@ =~= now@);
        Some(InputEvent::Keys { now, prev, toggle })
    }
}

} // verus!
