use vstd::prelude::*;

verus! {

/// The pressed state of the sixteen keypad keys.
#[derive(Debug)]
pub struct Keyboard {
    keys: [bool; 16],
}

impl View for Keyboard {
    type V = Seq<bool>;

    closed spec fn view(&self) -> Seq<bool> {
        self.keys@
    }
}

impl Keyboard {
    /// A keypad with no key pressed.
    pub fn new() -> (r: Keyboard)
        ensures
            r@ == Seq::new(16, |_i: int| false),
    {
        let r = Self { keys: [false; 16] };
        assert(r@ =~= Seq::new(16, |_i: int| false));
        r
    }
}

} // verus!
