use vstd::prelude::*;
use vstd::string::StringExecFns;

verus! {

/// A key event, named by its key code.
#[derive(Clone, Debug)]
pub enum KeyPress {
    KeyUp(String),
    KeyDown(String),
}

/// The keys held down at a moment: each code at most once.
#[derive(Clone, Debug)]
pub struct KeyState {
    pressed_keys: Vec<String>,
}

pub open spec fn codes_of(keys: Seq<String>) -> Seq<Seq<char>> {
    keys.map_values(|k: String| k@)
}

/// The held keys after `event`.
pub open spec fn after_key(held: Set<Seq<char>>, event: KeyPress) -> Set<Seq<char>> {
    match event {
        KeyPress::KeyDown(code) => held.insert(code@),
        KeyPress::KeyUp(code) => held.remove(code@),
    }
}

/// The held keys after each of `events` in turn.
pub open spec fn after_keys(held: Set<Seq<char>>, events: Seq<KeyPress>) -> Set<Seq<char>>
    decreases events.len(),
{
    if events.len() == 0 {
        held
    } else {
        after_key(after_keys(held, events.drop_last()), events.last())
    }
}

impl View for KeyState {
    type V = Set<Seq<char>>;

    closed spec fn view(&self) -> Set<Seq<char>> {
        Set::new(|c: Seq<char>| codes_of(self.pressed_keys@).contains(c))
    }
}

impl KeyState {
    /// Each code is held at most once.
    pub closed spec fn wf(&self) -> bool {
        codes_of(self.pressed_keys@).no_duplicates()
    }

    /// No key held.
    pub fn new() -> (r: Self)
        ensures
            r@ == Set::<Seq<char>>::empty(),
            r.wf(),
    {
        let r = KeyState { pressed_keys: Vec::new() };
        assert(r@ =~= Set::<Seq<char>>::empty());
        r
    }

    fn position(&self, code: &String) -> (r: Option<usize>)
        ensures
            match r {
                Some(i) => i < self.pressed_keys@.len() && self.pressed_keys@[i as int]@ == code@
                    && self@.contains(code@),
                None => !self@.contains(code@),
            },
    {
        let mut i: usize = 0;
        while i < self.pressed_keys.len()
            invariant
                i <= self.pressed_keys@.len(),
                forall|j: int| 0 <= j < i ==> (#[trigger] self.pressed_keys@[j])@ != code@,
            decreases self.pressed_keys@.len() - i,
        {
            if self.pressed_keys[i] == *code {
                assert(codes_of(self.pressed_keys@)[i as int] == code@);
                return Some(i);
            }
            i = i + 1;
        }
        proof {
            if self@.contains(code@) {
                let j = choose|j: int| 0 <= j < codes_of(self.pressed_keys@).len() && codes_of(self.pressed_keys@)[j] == code@;
                assert(self.pressed_keys@[j]@ == code@);
            }
        }
        None
    }

    /// Whether the key `code` is held.
    pub fn is_pressed(&self, code: &str) -> (r: bool)
        ensures
            r == self@.contains(code@),
    {
        let code = String::from_str(code);
        self.position(&code).is_some()
    }

    pub fn set_pressed(&mut self, code: &str)
        requires
            old(self).wf(),
        ensures
            final(self).wf(),
            final(self)@ == old(self)@.insert(code@),
    {
        let code = String::from_str(code);
        match self.position(&code) {
            Some(_) => {
                assert(old(self)@.insert(code@) =~= old(self)@);
            },
            None => {
                let ghost before = self.pressed_keys@;
                self.pressed_keys.push(code);
                proof {
                    let cb = codes_of(before);
                    let ca = codes_of(self.pressed_keys@);
                    assert(ca =~= cb.push(code@));
                    assert forall|c: Seq<char>| #[trigger] self@.contains(c) <==> old(self)@.insert(code@).contains(c) by {
                        if cb.contains(c) {
                            let j = choose|j: int| 0 <= j < cb.len() && cb[j] == c;
                            assert(ca[j] == c);
                        }
                        if ca.contains(c) && c != code@ {
                            let j = choose|j: int| 0 <= j < ca.len() && ca[j] == c;
                            assert(cb[j] == c);
                        }
                        assert(ca[cb.len() as int] == code@);
                    }
                    assert(self@ =~= old(self)@.insert(code@));
                    assert forall|x: int, y: int| 0 <= x < ca.len() && 0 <= y < ca.len() && x != y implies ca[x] != ca[y] by {
                        if x < cb.len() && y < cb.len() {
                        } else if x == cb.len() {
                            assert(cb.contains(ca[y]));
                        } else {
                            assert(cb.contains(ca[x]));
                        }
                    }
                }
            },
        }
    }

    pub fn set_released(&mut self, code: &str)
        requires
            old(self).wf(),
        ensures
            final(self).wf(),
            final(self)@ == old(self)@.remove(code@),
    {
        let code = String::from_str(code);
        match self.position(&code) {
            Some(i) => {
                let ghost before = self.pressed_keys@;
                self.pressed_keys.remove(i);
                proof {
                    let cb = codes_of(before);
                    let ca = codes_of(self.pressed_keys@);
                    assert(ca =~= cb.remove(i as int));
                    assert(cb[i as int] == code@);
                    assert forall|c: Seq<char>| #[trigger] self@.contains(c) <==> old(self)@.remove(code@).contains(c) by {
                        if ca.contains(c) {
                            let j = choose|j: int| 0 <= j < ca.len() && ca[j] == c;
                            if j < i {
                                assert(cb[j] == c);
                            } else {
                                assert(cb[j + 1] == c);
                            }
                        }
                        if cb.contains(c) && c != code@ {
                            let j = choose|j: int| 0 <= j < cb.len() && cb[j] == c;
                            if j < i {
                                assert(ca[j] == c);
                            } else {
                                assert(ca[j - 1] == c);
                            }
                        }
                    }
                    assert(self@ =~= old(self)@.remove(code@));
                }
            },
            None => {
                assert(old(self)@.remove(code@) =~= old(self)@);
            },
        }
    }

    /// Applies one key event.
    pub fn apply(&mut self, event: &KeyPress)
        requires
            old(self).wf(),
        ensures
            final(self).wf(),
            final(self)@ == after_key(old(self)@, *event),
    {
        match event {
            KeyPress::KeyUp(code) => self.set_released(code.as_str()),
            KeyPress::KeyDown(code) => self.set_pressed(code.as_str()),
        }
    }
}

/// Applies the queued key events, in order, to the snapshot.
pub fn process_input(state: &mut KeyState, events: &Vec<KeyPress>)
    requires
        old(state).wf(),
    ensures
        final(state).wf(),
        final(state)@ == after_keys(old(state)@, events@),
{
    let ghost start = state@;
    let mut i: usize = 0;
    while i < events.len()
        invariant
            i <= events@.len(),
            state.wf(),
            state@ == after_keys(start, events@.subrange(0, i as int)),
        decreases events@.len() - i,
    {
        proof {
            assert(events@.subrange(0, i + 1).drop_last() =~= events@.subrange(0, i as int));
        }
        state.apply(&events[i]);
        i = i + 1;
    }
    assert(events@.subrange(0, i as int) =~= events@);
}

} // verus!
