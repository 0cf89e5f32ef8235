use vstd::prelude::*;

verus! {

/// Number of keys on the keypad.
pub const KEYS: usize = 16;

/// The host keyboard keys that the keypad listens to, laid out as the left
/// four columns of a QWERTY keyboard; every other key is `Other`.
#[derive(Clone, Copy, Debug, PartialEq, Eq, Structural)]
pub enum HostKey {
    Key1,
    Key2,
    Key3,
    Key4,
    Q,
    W,
    E,
    R,
    A,
    S,
    D,
    F,
    Z,
    X,
    C,
    V,
    Other,
}

/// The keypad code of a host key, laid out as the hexadecimal CHIP-8 keypad
/// (`1 2 3 C / 4 5 6 D / 7 8 9 E / A 0 B F`).
pub open spec fn key_code(k: HostKey) -> Option<u8> {
    match k {
        HostKey::Key1 => Some(0x1u8),
        HostKey::Key2 => Some(0x2u8),
        HostKey::Key3 => Some(0x3u8),
        HostKey::Key4 => Some(0xCu8),
        HostKey::Q => Some(0x4u8),
        HostKey::W => Some(0x5u8),
        HostKey::E => Some(0x6u8),
        HostKey::R => Some(0xDu8),
        HostKey::A => Some(0x7u8),
        HostKey::S => Some(0x8u8),
        HostKey::D => Some(0x9u8),
        HostKey::F => Some(0xEu8),
        HostKey::Z => Some(0xAu8),
        HostKey::X => Some(0x0u8),
        HostKey::C => Some(0xBu8),
        HostKey::V => Some(0xFu8),
        HostKey::Other => None,
    }
}

/// Translates a host key into a keypad code; `None` for keys off the keypad.
pub fn keypad_code(k: HostKey) -> (r: Option<u8>)
    ensures
        r == key_code(k),
        r matches Some(c) ==> c < 16,
{
    match k {
        HostKey::Key1 => Some(0x1),
        HostKey::Key2 => Some(0x2),
        HostKey::Key3 => Some(0x3),
        HostKey::Key4 => Some(0xC),
        HostKey::Q => Some(0x4),
        HostKey::W => Some(0x5),
        HostKey::E => Some(0x6),
        HostKey::R => Some(0xD),
        HostKey::A => Some(0x7),
        HostKey::S => Some(0x8),
        HostKey::D => Some(0x9),
        HostKey::F => Some(0xE),
        HostKey::Z => Some(0xA),
        HostKey::X => Some(0x0),
        HostKey::C => Some(0xB),
        HostKey::V => Some(0xF),
        HostKey::Other => None,
    }
}

/// Whether key `code` is down; codes past the keypad are never down.
pub open spec fn pressed_in(keys: Seq<bool>, code: int) -> bool {
    0 <= code < keys.len() && keys[code]
}

/// The lowest pressed key, if any.
pub open spec fn lowest_pressed(keys: Seq<bool>) -> Option<u8> {
    if exists|k: int| 0 <= k < keys.len() && keys[k] {
        let k = choose|k: int|
            0 <= k < keys.len() && keys[k] && forall|j: int| 0 <= j < k ==> !keys[j];
        Some(k as u8)
    } else {
        None
    }
}

/// Whether some key is down.
pub open spec fn any_down(keys: Seq<bool>) -> bool {
    exists|k: int| 0 <= k < keys.len() && keys[k]
}

/// The 16-key hexadecimal keypad: which keys are held down.
pub struct Input {
    keys: Vec<bool>,
}

impl Input {
    pub closed spec fn view(&self) -> Seq<bool> {
        self.keys@
    }

    pub open spec fn wf(&self) -> bool {
        self@.len() == KEYS
    }

    /// A keypad with no key down.
    pub fn new() -> (r: Input)
        ensures
            r.wf(),
            r@ == Seq::new(KEYS as nat, |i: int| false),
    {
        let mut keys: Vec<bool> = Vec::new();
        while keys.len() < KEYS
            invariant
                keys@.len() <= KEYS,
                forall|i: int| 0 <= i < keys@.len() ==> !keys@[i],
            decreases KEYS - keys@.len(),
        {
            keys.push(false);
        }
        assert(keys@ =~= Seq::new(KEYS as nat, |i: int| false));
        Input { keys }
    }

    /// Records that key `code` went down (`pressed`) or up.
    pub fn set_key(&mut self, code: u8, pressed: bool)
        requires
            old(self).wf(),
            code < KEYS,
        ensures
            final(self).wf(),
            final(self)@ == old(self)@.update(code as int, pressed),
    {
        self.keys.set(code as usize, pressed);
    }

    /// Records a host key event; keys off the keypad are ignored.
    pub fn process(&mut self, key: HostKey, pressed: bool)
        requires
            old(self).wf(),
        ensures
            final(self).wf(),
            final(self)@ == match key_code(key) {
                Some(c) => old(self)@.update(c as int, pressed),
                None => old(self)@,
            },
    {
        match keypad_code(key) {
            Some(c) => self.set_key(c, pressed),
            None => {},
        }
    }

    /// Whether key `code` is down; codes past the keypad are never down.
    pub fn is_pressed(&self, code: u8) -> (r: bool)
        requires
            self.wf(),
        ensures
            r == pressed_in(self@, code as int),
    {
        (code as usize) < KEYS && self.keys[code as usize]
    }

    /// The lowest key that is down, if any.
    pub fn any_pressed(&self) -> (r: Option<u8>)
        requires
            self.wf(),
        ensures
            r == lowest_pressed(self@),
            r matches Some(k) ==> k < KEYS && self@[k as int] && forall|j: int|
                0 <= j < k ==> !self@[j],
            r is None <==> !any_down(self@),
    {
        let mut k: usize = 0;
        while k < KEYS
            invariant
                self.wf(),
                k <= KEYS,
                forall|j: int| 0 <= j < k ==> !self@[j],
            decreases KEYS - k,
        {
            if self.keys[k] {
                proof {
                    let ki = k as int;
                    assert(0 <= ki < self@.len() && self@[ki]);
                    let c = choose|c: int|
                        0 <= c < self@.len() && self@[c] && forall|j: int|
                            0 <= j < c ==> !self@[j];
                    assert(c == ki) by {
                        if c < ki {
                        } else if c > ki {
                            assert(!self@[ki]);
                        }
                    }
                }
                return Some(k as u8);
            }
            k += 1;
        }
        None
    }

    /// Whether some key is down.
    pub fn has_keys(&self) -> (r: bool)
        requires
            self.wf(),
        ensures
            r == any_down(self@),
    {
        let mut k: usize = 0;
        while k < KEYS
            invariant
                self.wf(),
                k <= KEYS,
                forall|j: int| 0 <= j < k ==> !self@[j],
            decreases KEYS - k,
        {
            if self.keys[k] {
                return true;
            }
            k += 1;
        }
        false
    }
}

} // verus!
