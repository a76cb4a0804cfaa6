//! The state that the engine shares with a renderer and an input source: the
//! framebuffer and the sixteen-key keypad.
//!
//! Every operation is one short read or write. A holder of a lock around a
//! `GameState` calls one of them and lets go: none of them waits.

use vstd::prelude::*;
use crate::display::{
    blank_grid,
    grid_get,
    grid_height,
    grid_set,
    grid_wf,
    grid_width,
    DisplayState,
    HEIGHT,
    WIDTH,
};

verus! {

/// Number of keys on the keypad.
pub const KEY_COUNT: usize = 16;

/// The logical key behind each key id, `0x0` to `0xF`.
pub const KEY_LAYOUT: [char; 16] = [
    'X', '1', '2', '3', 'Q', 'W', 'E', 'A', 'S', 'D', 'Z', 'C', '4', 'R', 'F', 'V',
];

/// Whether a key is held down.
#[derive(Copy, Clone, PartialEq, Eq, Debug, Structural)]
pub enum KeyState {
    /// The key is down.
    Pressed,
    /// The key is up.
    Released,
}

/// The mathematical content of the shared state.
#[verifier::ext_equal]
pub struct GameView {
    /// The framebuffer, column by column.
    pub display: Seq<Seq<bool>>,
    /// The state of each key, by key id.
    pub keys: Seq<KeyState>,
}

/// The id of the highest-numbered pressed key among the first `n`, if any of
/// them is pressed.
pub open spec fn last_pressed(keys: Seq<KeyState>, n: nat) -> Option<u8>
    decreases n,
{
    if n == 0 {
        None
    } else if keys[n - 1] == KeyState::Pressed {
        Some((n - 1) as u8)
    } else {
        last_pressed(keys, (n - 1) as nat)
    }
}

/// The key states after one poll of the input source: a key is pressed
/// exactly when its id was observed, whatever it was before.
pub open spec fn polled_keys(pressed: Seq<u8>) -> Seq<KeyState> {
    Seq::new(
        KEY_COUNT as nat,
        |id: int|
            if pressed.contains(id as u8) {
                KeyState::Pressed
            } else {
                KeyState::Released
            },
    )
}

impl GameView {
    /// The shape every shared state has: a proper grid and sixteen keys.
    pub open spec fn wf(self) -> bool {
        &&& grid_wf(self.display)
        &&& self.keys.len() == KEY_COUNT
    }

    /// The state with the framebuffer replaced.
    pub open spec fn with_display(self, display: Seq<Seq<bool>>) -> GameView {
        GameView { display: display, ..self }
    }

    /// The state with the keypad replaced.
    pub open spec fn with_keys(self, keys: Seq<KeyState>) -> GameView {
        GameView { keys: keys, ..self }
    }

    /// The id of the highest-numbered pressed key, if any key is pressed.
    pub open spec fn pressed_key(self) -> Option<u8> {
        last_pressed(self.keys, KEY_COUNT as nat)
    }
}

/// The framebuffer and the keypad.
pub struct GameState {
    display: DisplayState,
    keys: [KeyState; 16],
}

impl View for GameState {
    type V = GameView;

    closed spec fn view(&self) -> GameView {
        GameView { display: self.display@, keys: self.keys@ }
    }
}

/// What `last_pressed` finds: a pressed key with none pressed above it, or
/// nothing when no key is pressed.
pub proof fn lemma_last_pressed(keys: Seq<KeyState>, n: nat)
    requires
        n <= 256,
        n <= keys.len(),
    ensures
        match last_pressed(keys, n) {
            Some(id) => id < n && keys[id as int] == KeyState::Pressed && forall|j: int|
                id < j < n ==> keys[j] != KeyState::Pressed,
            None => forall|j: int| 0 <= j < n ==> keys[j] != KeyState::Pressed,
        },
    decreases n,
{
    if n > 0 && keys[n - 1] != KeyState::Pressed {
        lemma_last_pressed(keys, (n - 1) as nat);
    }
}

/// The key id that a logical key stands for, if it is one of the sixteen in
/// `KEY_LAYOUT`.
pub fn key_id_for(key: char) -> (id: Option<u8>)
    ensures
        match id {
            Some(id) => id < KEY_COUNT && KEY_LAYOUT@[id as int] == key,
            None => forall|i: int| 0 <= i < KEY_COUNT ==> KEY_LAYOUT@[i] != key,
        },
{
    let mut i: u8 = 0;
    while i < 16
        invariant
            i <= 16,
            forall|k: int| 0 <= k < i ==> KEY_LAYOUT@[k] != key,
        decreases 16 - i,
    {
        if KEY_LAYOUT[i as usize] == key {
            return Some(i);
        }
        i = i + 1;
    }
    None
}

impl GameState {
    /// What holds of the parts: the framebuffer is in order.
    pub closed spec fn parts_wf(&self) -> bool {
        self.display.wf()
    }

    /// Whether the state has the shape that every operation keeps.
    pub open spec fn wf(&self) -> bool {
        &&& self.parts_wf()
        &&& self@.wf()
        &&& grid_width(self@.display) <= isize::MAX
        &&& grid_height(self@.display) <= isize::MAX
    }

    /// A state with an all-dark framebuffer of the reference size and every
    /// key released.
    pub fn new() -> (game: GameState)
        ensures
            game.wf(),
            game@.display == blank_grid(WIDTH as int, HEIGHT as int),
            game@.keys == Seq::new(KEY_COUNT as nat, |id: int| KeyState::Released),
    {
        let game = GameState { display: DisplayState::new(), keys: [KeyState::Released; 16] };
        game
    }

    /// A state with an all-dark framebuffer of the given size and every key
    /// released, if there is a framebuffer of that size: both sides non-zero
    /// and no more than `isize::MAX` pixels.
    pub fn with_size(width: usize, height: usize) -> (game: Option<GameState>)
        ensures
            width > 0 && height > 0 && width * height <= isize::MAX ==> game is Some
                && game->Some_0.wf() && game->Some_0@.display == blank_grid(
                width as int,
                height as int,
            ) && game->Some_0@.keys == Seq::new(KEY_COUNT as nat, |id: int| KeyState::Released),
            !(width > 0 && height > 0 && width * height <= isize::MAX) ==> game is None,
    {
        match DisplayState::with_size(width, height) {
            Some(display) => {
                let game = GameState { display: display, keys: [KeyState::Released; 16] };
                Some(game)
            },
            None => None,
        }
    }

    /// Number of columns of the framebuffer.
    pub fn width(&self) -> (width: usize)
        requires
            self.wf(),
        ensures
            width == grid_width(self@.display),
    {
        self.display.width()
    }

    /// Number of rows of the framebuffer.
    pub fn height(&self) -> (height: usize)
        requires
            self.wf(),
        ensures
            height == grid_height(self@.display),
    {
        self.display.height()
    }

    /// Sets the pixel at column `x`, row `y`. Coordinates past an edge wrap
    /// around it.
    pub fn set_pixel(&mut self, x: usize, y: usize, pixel_state: bool)
        requires
            old(self).wf(),
        ensures
            final(self).wf(),
            final(self)@ == old(self)@.with_display(
                grid_set(old(self)@.display, x as int, y as int, pixel_state),
            ),
    {
        self.display.set_pixel(x, y, pixel_state);
    }

    /// The pixel at column `x`, row `y`. Coordinates past an edge wrap around
    /// it.
    pub fn get_pixel(&self, x: usize, y: usize) -> (pixel_state: bool)
        requires
            self.wf(),
        ensures
            pixel_state == grid_get(self@.display, x as int, y as int),
    {
        self.display.get_pixel(x, y)
    }

    /// Turns every pixel dark. Size and keys stay.
    pub fn clear_display(&mut self)
        requires
            old(self).wf(),
        ensures
            final(self).wf(),
            final(self)@ == old(self)@.with_display(
                blank_grid(grid_width(old(self)@.display), grid_height(old(self)@.display)),
            ),
    {
        self.display.clear();
    }

    /// The state of the key with the given id.
    pub fn get_key_state(&self, key_id: u8) -> (state: KeyState)
        requires
            self.wf(),
            key_id < KEY_COUNT,
        ensures
            state == self@.keys[key_id as int],
    {
        self.keys[key_id as usize]
    }

    /// Records the state of the key with the given id.
    pub fn set_key_state(&mut self, key_id: u8, state: KeyState)
        requires
            old(self).wf(),
            key_id < KEY_COUNT,
        ensures
            final(self).wf(),
            final(self)@ == old(self)@.with_keys(old(self)@.keys.update(key_id as int, state)),
    {
        self.keys[key_id as usize] = state;
    }

    /// Records one poll of the input source. `pressed` lists the ids of the
    /// keys seen down; every other key is written released, whatever it was
    /// before. Ids past `0xF` name no key and are ignored.
    pub fn update_keys(&mut self, pressed: &Vec<u8>)
        requires
            old(self).wf(),
        ensures
            final(self).wf(),
            final(self)@ == old(self)@.with_keys(polled_keys(pressed@)),
    {
        let mut id: usize = 0;
        while id < KEY_COUNT
            invariant
                id <= KEY_COUNT,
                self.wf(),
                self@.display == old(self)@.display,
                forall|k: int| 0 <= k < id ==> self@.keys[k] == KeyState::Released,
            decreases KEY_COUNT - id,
        {
            self.keys[id] = KeyState::Released;
            id = id + 1;
        }
        let mut i: usize = 0;
        while i < pressed.len()
            invariant
                i <= pressed.len(),
                self.wf(),
                self@.display == old(self)@.display,
                forall|id: u8|
                    id < KEY_COUNT ==> self@.keys[id as int] == if #[trigger] pressed@.take(
                        i as int,
                    ).contains(id) {
                        KeyState::Pressed
                    } else {
                        KeyState::Released
                    },
            decreases pressed.len() - i,
        {
            let key_id: u8 = pressed[i];
            if (key_id as usize) < KEY_COUNT {
                self.keys[key_id as usize] = KeyState::Pressed;
            }
            proof {
                let before = pressed@.take(i as int);
                let after = pressed@.take(i + 1);
                assert forall|id: u8| id < KEY_COUNT implies (#[trigger] after.contains(id) <==> (
                before.contains(id) || id == key_id)) by {
                    if id == key_id {
                        assert(after[i as int] == id);
                    }
                }
            }
            i = i + 1;
        }
        assert(pressed@.take(pressed.len() as int) =~= pressed@);
    }

    /// The id of the highest-numbered pressed key, if any key is pressed.
    pub fn pressed_key(&self) -> (id: Option<u8>)
        requires
            self.wf(),
        ensures
            id == self@.pressed_key(),
    {
        let mut found: Option<u8> = None;
        let mut key_id: u8 = 0;
        while key_id < 16
            invariant
                key_id <= 16,
                self.wf(),
                found == last_pressed(self@.keys, key_id as nat),
            decreases 16 - key_id,
        {
            if self.keys[key_id as usize] == KeyState::Pressed {
                found = Some(key_id);
            }
            key_id = key_id + 1;
        }
        found
    }
}

} // verus!
