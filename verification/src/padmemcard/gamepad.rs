//! Gamepads and their profiles

use vstd::prelude::*;

verus! {

/// Digital buttons on a PlayStation controller
#[derive(Clone, Copy, Debug, PartialEq, Eq, Structural)]
pub enum Button {
    Select,
    Start,
    DUp,
    DRight,
    DDown,
    DLeft,
    L2,
    R2,
    L1,
    R1,
    Triangle,
    Circle,
    Cross,
    Square,
}

/// Bit position of a button in the 16bit word returned in the serial
/// protocol
pub open spec fn button_bit(b: Button) -> u16 {
    match b {
        Button::Select => 0,
        Button::Start => 3,
        Button::DUp => 4,
        Button::DRight => 5,
        Button::DDown => 6,
        Button::DLeft => 7,
        Button::L2 => 8,
        Button::R2 => 9,
        Button::L1 => 10,
        Button::R1 => 11,
        Button::Triangle => 12,
        Button::Circle => 13,
        Button::Cross => 14,
        Button::Square => 15,
    }
}

impl Button {
    /// Bit position of the button in the button state word
    pub fn bit(self) -> (b: u16)
        ensures
            b == button_bit(self),
            b < 16,
    {
        match self {
            Button::Select => 0,
            Button::Start => 3,
            Button::DUp => 4,
            Button::DRight => 5,
            Button::DDown => 6,
            Button::DLeft => 7,
            Button::L2 => 8,
            Button::R2 => 9,
            Button::L1 => 10,
            Button::R1 => 11,
            Button::Triangle => 12,
            Button::Circle => 13,
            Button::Cross => 14,
            Button::Square => 15,
        }
    }
}

#[derive(Clone, Copy, Debug, PartialEq, Eq, Structural)]
pub enum ButtonState {
    Pressed,
    Released,
}

/// Trait used to abstract away the various controller types.
pub trait Profile {
    /// Handle a command byte sent by the console. `seq` is the byte
    /// position in the current command starting with `1` since byte
    /// `0` is expected to always be `0x01` when addressing a
    /// controller and is handled at the top level.
    ///
    /// Returns a pair `(response, dsr)`. If DSR is false the
    /// subsequent command bytes will be ignored for the current
    /// transaction.
    fn handle_command(&mut self, seq: u8, cmd: u8) -> (r: (u8, bool))
        ensures
            r == old(self).response(seq, cmd),
            // Handling the byte is the only change to the controller
            forall|s: u8, c: u8| #[trigger]
                final(self).response(s, c) == old(self).response_after(seq![(seq, cmd)], s, c),
            forall|h: Seq<(u8, u8)>, s: u8, c: u8| #[trigger]
                final(self).response_after(h, s, c) == old(self).response_after(
                    seq![(seq, cmd)] + h,
                    s,
                    c,
                ),
    ;

    /// What the controller answers to the command byte `cmd` at
    /// position `seq`, in its current state
    spec fn response(&self, seq: u8, cmd: u8) -> (u8, bool);

    /// What the controller answers to the command byte `cmd` at
    /// position `seq` once it has handled the bytes of `history` (each
    /// a position and a command byte), in order
    spec fn response_after(&self, history: Seq<(u8, u8)>, seq: u8, cmd: u8) -> (u8, bool);

    /// What the controller answers to the command byte `cmd` at
    /// position `seq`, once `button` is set to `state` and the bytes
    /// of `history` are handled
    spec fn response_with_button(
        &self,
        button: Button,
        state: ButtonState,
        history: Seq<(u8, u8)>,
        seq: u8,
        cmd: u8,
    ) -> (u8, bool);

    /// Set a button's state. The function can be called several time
    /// in a row with the same button and the same state, it should be
    /// idempotent.
    fn set_button_state(&mut self, button: Button, state: ButtonState)
        ensures
            forall|s: u8, c: u8| #[trigger]
                final(self).response(s, c) == old(self).response_with_button(
                    button,
                    state,
                    Seq::empty(),
                    s,
                    c,
                ),
            forall|h: Seq<(u8, u8)>, s: u8, c: u8| #[trigger]
                final(self).response_after(h, s, c) == old(self).response_with_button(
                    button,
                    state,
                    h,
                    s,
                    c,
                ),
    ;
}

/// Dummy profile emulating an empty pad slot
pub struct DisconnectedProfile;

impl Profile for DisconnectedProfile {
    fn handle_command(&mut self, _seq: u8, _cmd: u8) -> (r: (u8, bool)) {
        (0xff, false)
    }

    /// The bus is open, no response
    open spec fn response(&self, seq: u8, cmd: u8) -> (u8, bool) {
        (0xffu8, false)
    }

    open spec fn response_after(&self, history: Seq<(u8, u8)>, seq: u8, cmd: u8) -> (u8, bool) {
        (0xffu8, false)
    }

    open spec fn response_with_button(
        &self,
        button: Button,
        state: ButtonState,
        history: Seq<(u8, u8)>,
        seq: u8,
        cmd: u8,
    ) -> (u8, bool) {
        (0xffu8, false)
    }

    fn set_button_state(&mut self, _button: Button, _state: ButtonState) {
    }
}

/// Response of a digital gamepad whose buttons are `buttons` (a clear
/// bit marks a pressed button) to the command byte `cmd` at position
/// `seq`
pub open spec fn digital_response(buttons: u16, seq: u8, cmd: u8) -> (u8, bool) {
    if seq == 0 {
        // First byte should be 0x01 if the command targets the
        // controller
        (0xff, cmd == 0x01)
    } else if seq == 1 {
        // Digital gamepad only supports command 0x42: read buttons.
        // Response 0x41: we're a digital PSX controller
        (0x41, cmd == 0x42)
    } else if seq == 2 {
        // From then on the command byte is ignored. Response 0x5a:
        // 2nd controller ID byte
        (0x5a, true)
    } else if seq == 3 {
        // First button state byte: direction cross, start and select.
        (buttons as u8, true)
    } else if seq == 4 {
        // 2nd button state byte: shoulder buttons and "shape"
        // buttons. DSR is not asserted for the last byte.
        ((buttons >> 8u16) as u8, false)
    } else {
        (0xff, false)
    }
}

/// Button state word `buttons` once `button` is set to `state`: a
/// pressed button's bit is cleared, a released one's is set
pub open spec fn buttons_with(buttons: u16, button: Button, state: ButtonState) -> u16 {
    match state {
        ButtonState::Pressed => buttons & !(1u16 << button_bit(button)),
        ButtonState::Released => buttons | (1u16 << button_bit(button)),
    }
}

/// SCPH-1080: Digital gamepad.
/// Full state is only two bytes since we only need one bit per
/// button.
pub struct DigitalProfile(u16);

impl DigitalProfile {
    /// Button state word: a clear bit marks a pressed button
    pub closed spec fn buttons(&self) -> u16 {
        self.0
    }

    /// No button pressed
    pub fn new() -> (p: DigitalProfile)
        ensures
            p.buttons() == 0xffff,
    {
        DigitalProfile(0xffff)
    }
}

impl Profile for DigitalProfile {
    open spec fn response(&self, seq: u8, cmd: u8) -> (u8, bool) {
        digital_response(self.buttons(), seq, cmd)
    }

    /// Command bytes leave the button state as it is
    open spec fn response_after(&self, history: Seq<(u8, u8)>, seq: u8, cmd: u8) -> (u8, bool) {
        digital_response(self.buttons(), seq, cmd)
    }

    open spec fn response_with_button(
        &self,
        button: Button,
        state: ButtonState,
        history: Seq<(u8, u8)>,
        seq: u8,
        cmd: u8,
    ) -> (u8, bool) {
        digital_response(buttons_with(self.buttons(), button, state), seq, cmd)
    }

    fn handle_command(&mut self, seq: u8, cmd: u8) -> (r: (u8, bool))
        ensures
            final(self).buttons() == old(self).buttons(),
    {
        if seq == 0 {
            (0xff, cmd == 0x01)
        } else if seq == 1 {
            (0x41, cmd == 0x42)
        } else if seq == 2 {
            (0x5a, true)
        } else if seq == 3 {
            (self.0 as u8, true)
        } else if seq == 4 {
            ((self.0 >> 8) as u8, false)
        } else {
            (0xff, false)
        }
    }

    fn set_button_state(&mut self, button: Button, state: ButtonState)
        ensures
            final(self).buttons() == buttons_with(old(self).buttons(), button, state),
    {
        let s = self.0;
        let mask: u16 = 1 << button.bit();
        self.0 = match state {
            ButtonState::Pressed => s & !mask,
            ButtonState::Released => s | mask,
        };
    }
}

pub struct GamePad {
    /// Gamepad profile. *Not* stored in the savestate.
    profile: Box<dyn Profile>,
    /// Counter keeping track of the current position in the reply
    /// sequence
    seq: u8,
    /// False if the pad is done processing the current command
    active: bool,
}

impl GamePad {
    /// Position in the reply sequence
    pub closed spec fn position(&self) -> u8 {
        self.seq
    }

    /// The pad still handles command bytes in this transaction
    pub closed spec fn is_active(&self) -> bool {
        self.active
    }

    /// What the pad's profile answers to the command byte `cmd` at
    /// position `seq`
    pub closed spec fn answer(&self, seq: u8, cmd: u8) -> (u8, bool) {
        (*self.profile).response(seq, cmd)
    }

    /// What the pad's profile answers to the command byte `cmd` at
    /// position `seq` once it has handled the bytes of `history`
    pub closed spec fn answer_after(&self, history: Seq<(u8, u8)>, seq: u8, cmd: u8) -> (u8, bool) {
        (*self.profile).response_after(history, seq, cmd)
    }

    /// What the pad's profile answers to the command byte `cmd` at
    /// position `seq` once `button` is set to `state` and the bytes of
    /// `history` are handled
    pub closed spec fn answer_with_button(
        &self,
        button: Button,
        state: ButtonState,
        history: Seq<(u8, u8)>,
        seq: u8,
        cmd: u8,
    ) -> (u8, bool) {
        (*self.profile).response_with_button(button, state, history, seq, cmd)
    }

    /// The two pads answer alike, now and after any command bytes
    pub open spec fn same_answers(&self, n: GamePad) -> bool {
        &&& forall|s: u8, c: u8| #[trigger] n.answer(s, c) == self.answer(s, c)
        &&& forall|h: Seq<(u8, u8)>, s: u8, c: u8| #[trigger]
            n.answer_after(h, s, c) == self.answer_after(h, s, c)
    }

    /// Response byte and DSR flag the pad gives to the command byte
    /// `cmd`: its profile's answer at the current position while the
    /// pad is active, nothing (`0xff`, no DSR) once the transaction is
    /// over
    pub open spec fn reply(&self, cmd: u8) -> (u8, bool) {
        if self.is_active() {
            self.answer(self.position(), cmd)
        } else {
            (0xffu8, false)
        }
    }

    /// `n` is the pad after it received the command byte `cmd`: while
    /// active, the profile handled the byte at the current position,
    /// the position moved on by one and the pad stays active as long as
    /// DSR is asserted; an inactive pad ignores the byte
    pub open spec fn commanded(&self, n: GamePad, cmd: u8) -> bool {
        if self.is_active() {
            let h = seq![(self.position(), cmd)];
            &&& n.position() == self.position() + 1
            &&& n.is_active() == self.answer(self.position(), cmd).1
            &&& forall|s: u8, c: u8| #[trigger] n.answer(s, c) == self.answer_after(h, s, c)
            &&& forall|g: Seq<(u8, u8)>, s: u8, c: u8| #[trigger]
                n.answer_after(g, s, c) == self.answer_after(h + g, s, c)
        } else {
            n == *self
        }
    }

    /// `n` is the pad after the select line went down: the transaction
    /// starts again from the first byte, with the same profile
    pub open spec fn selected(&self, n: GamePad) -> bool {
        &&& n.position() == 0
        &&& n.is_active()
        &&& self.same_answers(n)
    }

    /// A new command byte can be handled without overflowing the
    /// position counter
    pub open spec fn can_send(&self) -> bool {
        self.is_active() ==> self.position() < 255
    }

    /// A new command byte can be handled
    pub fn ready(&self) -> (r: bool)
        ensures
            r == self.can_send(),
    {
        !self.active || self.seq < 255
    }

    /// Create a new disconnected GamePad
    pub fn disconnected() -> (p: GamePad)
        ensures
            p.position() == 0,
            p.is_active(),
            // Nothing answers on the bus
            forall|seq: u8, cmd: u8| #[trigger] p.answer(seq, cmd) == (0xffu8, false),
            forall|h: Seq<(u8, u8)>, seq: u8, cmd: u8| #[trigger]
                p.answer_after(h, seq, cmd) == (0xffu8, false),
    {
        GamePad { seq: 0, active: true, profile: Box::new(DisconnectedProfile) }
    }

    /// Create a new GamePad using `profile`
    pub fn new(profile: Box<dyn Profile>) -> (p: GamePad)
        ensures
            p.position() == 0,
            p.is_active(),
            forall|s: u8, c: u8| #[trigger] p.answer(s, c) == (*profile).response(s, c),
            forall|h: Seq<(u8, u8)>, s: u8, c: u8| #[trigger]
                p.answer_after(h, s, c) == (*profile).response_after(h, s, c),
    {
        let mut profile = profile;
        let mut p = GamePad::disconnected();
        std::mem::swap(&mut p.profile, &mut profile);
        p
    }

    /// Called when the "select" line goes down.
    pub fn select(&mut self)
        ensures
            old(self).selected(*final(self)),
    {
        // Prepare for incomming command
        self.active = true;
        self.seq = 0;
    }

    /// The first return value is the response byte. The 2nd return
    /// value is true if the gamepad issues a DSR pulse after the byte
    /// is read to notify the controller that more data can be read.
    pub fn send_command(&mut self, cmd: u8) -> (r: (u8, bool))
        requires
            old(self).can_send(),
        ensures
            r == old(self).reply(cmd),
            old(self).commanded(*final(self), cmd),
    {
        if !self.active {
            return (0xff, false);
        }
        let (resp, dsr) = self.profile.handle_command(self.seq, cmd);
        // If we're not asserting DSR it either means that we've
        // encountered an error or that we have nothing else to
        // reply. In either case we won't be handling any more command
        // bytes in this transaction.
        self.active = dsr;
        self.seq = self.seq + 1;
        (resp, dsr)
    }

    /// The underlying gamepad Profile
    pub fn profile_mut(&mut self) -> (p: &mut Box<dyn Profile>)
        ensures
            final(self).position() == old(self).position(),
            final(self).is_active() == old(self).is_active(),
    {
        &mut self.profile
    }

    /// Replace the underlying gamepad Profile
    pub fn set_profile(&mut self, profile: Box<dyn Profile>)
        ensures
            final(self).position() == old(self).position(),
            final(self).is_active() == old(self).is_active(),
            forall|s: u8, c: u8| #[trigger] final(self).answer(s, c) == (*profile).response(s, c),
            forall|h: Seq<(u8, u8)>, s: u8, c: u8| #[trigger]
                final(self).answer_after(h, s, c) == (*profile).response_after(h, s, c),
    {
        let mut profile = profile;
        std::mem::swap(&mut self.profile, &mut profile);
    }

    /// Set the state of a button of the underlying profile
    pub fn set_button_state(&mut self, button: Button, state: ButtonState)
        ensures
            final(self).position() == old(self).position(),
            final(self).is_active() == old(self).is_active(),
            forall|s: u8, c: u8| #[trigger]
                final(self).answer(s, c) == old(self).answer_with_button(button, state, Seq::empty(), s, c),
            forall|h: Seq<(u8, u8)>, s: u8, c: u8| #[trigger]
                final(self).answer_after(h, s, c) == old(self).answer_with_button(button, state, h, s, c),
    {
        self.profile.set_button_state(button, state)
    }
}

} // verus!
