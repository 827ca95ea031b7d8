use vstd::prelude::*;

verus! {

/// Byte handed to the feedback hook once, last, when a capture ends.
pub const SENTINEL: u8 = 4;

/// Line feed: ends a capture.
pub const LINE_FEED: u8 = 10;

/// Carriage return: ends a capture.
pub const CARRIAGE_RETURN: u8 = 13;

/// Backspace: erases the last byte when erasing is enabled.
pub const BACKSPACE: u8 = 8;

/// Delete: erases the last byte when erasing is enabled.
pub const DELETE: u8 = 127;

/// End of transmission (Ctrl-D): ends a capture when so configured.
pub const END_OF_INPUT: u8 = 4;

/// What one keystroke does to a capture.
#[derive(PartialEq, Eq, Structural, Clone, Copy, Debug)]
pub enum KeyAction {
    /// The capture ends; the byte is not kept.
    Finish,
    /// The last byte of the secret is removed, if there is one.
    Erase,
    /// The byte is appended to the secret.
    Append,
}

/// What the keystroke `b` does.
pub open spec fn key_action(b: u8, erase_enabled: bool, eof_ends: bool) -> KeyAction {
    if b == LINE_FEED || b == CARRIAGE_RETURN || (eof_ends && b == END_OF_INPUT) {
        KeyAction::Finish
    } else if erase_enabled && (b == BACKSPACE || b == DELETE) {
        KeyAction::Erase
    } else {
        KeyAction::Append
    }
}

/// Classifies a keystroke: line feed and carriage return always finish,
/// Ctrl-D finishes when `eof_ends`, backspace and delete erase when
/// `erase_enabled`, and every other byte is kept.
pub fn classify_key(b: u8, erase_enabled: bool, eof_ends: bool) -> (r: KeyAction)
    ensures
        r == key_action(b, erase_enabled, eof_ends),
{
    if b == LINE_FEED || b == CARRIAGE_RETURN || (eof_ends && b == END_OF_INPUT) {
        KeyAction::Finish
    } else if erase_enabled && (b == BACKSPACE || b == DELETE) {
        KeyAction::Erase
    } else {
        KeyAction::Append
    }
}

/// The secret after one more keystroke.
pub open spec fn next_secret(secret: Seq<u8>, b: u8, erase_enabled: bool, eof_ends: bool) -> Seq<u8> {
    match key_action(b, erase_enabled, eof_ends) {
        KeyAction::Erase => if secret.len() > 0 {
            secret.drop_last()
        } else {
            secret
        },
        KeyAction::Append => secret.push(b),
        _ => secret,
    }
}

/// What the feedback hook receives after one more keystroke.
pub open spec fn note_for(b: u8, erase_enabled: bool, eof_ends: bool) -> u8 {
    if key_action(b, erase_enabled, eof_ends) == KeyAction::Finish {
        SENTINEL
    } else {
        b
    }
}

/// The secret built by a run of keystrokes that holds no finishing key.
pub open spec fn typed(keys: Seq<u8>, erase_enabled: bool, eof_ends: bool) -> Seq<u8>
    decreases keys.len(),
{
    if keys.len() == 0 {
        Seq::empty()
    } else {
        next_secret(typed(keys.drop_last(), erase_enabled, eof_ends), keys.last(), erase_enabled, eof_ends)
    }
}

/// The bytes handed to the feedback hook over a run of keystrokes.
pub open spec fn notes(keys: Seq<u8>, erase_enabled: bool, eof_ends: bool) -> Seq<u8>
    decreases keys.len(),
{
    if keys.len() == 0 {
        Seq::empty()
    } else {
        notes(keys.drop_last(), erase_enabled, eof_ends).push(note_for(keys.last(), erase_enabled, eof_ends))
    }
}

/// Whether some key of the run finishes a capture.
pub open spec fn has_finish(keys: Seq<u8>, erase_enabled: bool, eof_ends: bool) -> bool {
    exists|i: int| 0 <= i < keys.len() && key_action(#[trigger] keys[i], erase_enabled, eof_ends) == KeyAction::Finish
}

/// What a capture session holds.
pub ghost struct CaptureView {
    pub secret: Seq<u8>,
    pub finished: bool,
    pub erase_enabled: bool,
    pub eof_ends: bool,
}

/// A secret being typed, one keystroke at a time.
pub struct SecretCapture {
    secret: Vec<u8>,
    finished: bool,
    erase_enabled: bool,
    eof_ends: bool,
}

impl View for SecretCapture {
    type V = CaptureView;

    closed spec fn view(&self) -> CaptureView {
        CaptureView {
            secret: self.secret@,
            finished: self.finished,
            erase_enabled: self.erase_enabled,
            eof_ends: self.eof_ends,
        }
    }
}

impl SecretCapture {
    /// An empty session.
    pub fn new(erase_enabled: bool, eof_ends: bool) -> (r: SecretCapture)
        ensures
            r@.secret == Seq::<u8>::empty(),
            !r@.finished,
            r@.erase_enabled == erase_enabled,
            r@.eof_ends == eof_ends,
    {
        SecretCapture { secret: Vec::new(), finished: false, erase_enabled, eof_ends }
    }

    /// Applies one keystroke and returns the byte for the feedback hook:
    /// the key itself after an erase or an append, `SENTINEL` when the key
    /// finishes the session.
    pub fn feed(&mut self, b: u8) -> (note: u8)
        requires
            !old(self)@.finished,
        ensures
            final(self)@.erase_enabled == old(self)@.erase_enabled,
            final(self)@.eof_ends == old(self)@.eof_ends,
            final(self)@.secret == next_secret(old(self)@.secret, b, old(self)@.erase_enabled, old(self)@.eof_ends),
            final(self)@.finished == (key_action(b, old(self)@.erase_enabled, old(self)@.eof_ends) == KeyAction::Finish),
            note == note_for(b, old(self)@.erase_enabled, old(self)@.eof_ends),
    {
        match classify_key(b, self.erase_enabled, self.eof_ends) {
            KeyAction::Finish => {
                self.finished = true;
                SENTINEL
            },
            KeyAction::Erase => {
                if self.secret.len() > 0 {
                    self.secret.pop();
                }
                b
            },
            KeyAction::Append => {
                self.secret.push(b);
                b
            },
        }
    }

    /// The secret typed so far.
    pub fn secret(&self) -> (r: &[u8])
        ensures
            r@ == self@.secret,
    {
        self.secret.as_slice()
    }

    /// Whether a finishing key has been fed.
    pub fn is_finished(&self) -> (r: bool)
        ensures
            r == self@.finished,
    {
        self.finished
    }

    /// Overwrites every byte of the secret with zero, keeping its length.
    pub fn zero(&mut self)
        ensures
            final(self)@.secret == Seq::new(old(self)@.secret.len(), |i: int| 0u8),
            final(self)@.finished == old(self)@.finished,
            final(self)@.erase_enabled == old(self)@.erase_enabled,
            final(self)@.eof_ends == old(self)@.eof_ends,
    {
        let n = self.secret.len();
        let mut i: usize = 0;
        while i < n
            invariant
                i <= n,
                n == self.secret.len(),
                n == old(self).secret@.len(),
                forall|j: int| 0 <= j < i ==> self.secret@[j] == 0u8,
                self.finished == old(self).finished,
                self.erase_enabled == old(self).erase_enabled,
                self.eof_ends == old(self).eof_ends,
            decreases n - i,
        {
            self.secret.set(i, 0);
            i = i + 1;
        }
        assert(self.secret@ =~= Seq::new(old(self)@.secret.len(), |i: int| 0u8));
    }

    /// Zeroes the secret's bytes, then empties it.
    pub fn wipe(&mut self)
        ensures
            final(self)@.secret.len() == 0,
            final(self)@.finished == old(self)@.finished,
            final(self)@.erase_enabled == old(self)@.erase_enabled,
            final(self)@.eof_ends == old(self)@.eof_ends,
    {
        self.zero();
        self.secret.clear();
    }

    /// Ends the session and hands the secret over.
    pub fn into_secret(self) -> (r: Vec<u8>)
        ensures
            r@ == self@.secret,
    {
        self.secret
    }
}

/// The outcome of running a capture over a sequence of keystrokes.
pub struct CaptureTrace {
    /// The secret as it stood when the run stopped.
    pub secret: Vec<u8>,
    /// Each byte handed to the feedback hook, in order.
    pub notes: Vec<u8>,
    /// Whether a finishing key was met.
    pub finished: bool,
    /// How many keystrokes were read, the finishing one included.
    pub consumed: usize,
}

/// Feeds `keys` to a fresh session until one finishes it, and records what
/// the feedback hook receives. Keys after the finishing one are not read.
pub fn capture_keys(keys: &[u8], erase_enabled: bool, eof_ends: bool) -> (t: CaptureTrace)
    ensures
        t.consumed <= keys@.len(),
        t.finished == has_finish(keys@, erase_enabled, eof_ends),
        forall|j: int| 0 <= j < t.consumed - 1 ==> key_action(#[trigger] keys@[j], erase_enabled, eof_ends) != KeyAction::Finish,
        t.finished ==> key_action(keys@[t.consumed - 1], erase_enabled, eof_ends) == KeyAction::Finish,
        !t.finished ==> t.consumed == keys@.len(),
        t.secret@ == typed(keys@.take(t.consumed as int), erase_enabled, eof_ends),
        t.notes@ == notes(keys@.take(t.consumed as int), erase_enabled, eof_ends),
        t.finished ==> t.notes@.len() > 0 && t.notes@.last() == SENTINEL,
        eof_ends ==> forall|i: int| 0 <= i < t.notes@.len() && #[trigger] t.notes@[i] == SENTINEL ==> t.finished && i == t.notes@.len() - 1,
{
    let mut session = SecretCapture::new(erase_enabled, eof_ends);
    let mut sent: Vec<u8> = Vec::new();
    let mut i: usize = 0;
    while i < keys.len() && !session.is_finished()
        invariant
            i <= keys@.len(),
            session@.erase_enabled == erase_enabled,
            session@.eof_ends == eof_ends,
            session@.secret == typed(keys@.take(i as int), erase_enabled, eof_ends),
            sent@ == notes(keys@.take(i as int), erase_enabled, eof_ends),
            forall|j: int| 0 <= j < i - 1 ==> key_action(#[trigger] keys@[j], erase_enabled, eof_ends) != KeyAction::Finish,
            session@.finished ==> i > 0 && key_action(keys@[i - 1], erase_enabled, eof_ends) == KeyAction::Finish,
            session@.finished ==> sent@.len() > 0 && sent@.last() == SENTINEL,
            !session@.finished ==> !has_finish(keys@.take(i as int), erase_enabled, eof_ends),
            eof_ends ==> forall|j: int| 0 <= j < sent@.len() && #[trigger] sent@[j] == SENTINEL ==> session@.finished && j == sent@.len() - 1,
        decreases keys@.len() - i,
    {
        let b = keys[i];
        let ghost before = keys@.take(i as int);
        let ghost was_done = session@.finished;
        let note = session.feed(b);
        sent.push(note);
        i = i + 1;
        proof {
            let now = keys@.take(i as int);
            assert(now.drop_last() =~= before);
            assert(now.last() == b);
            if !session@.finished {
                assert forall|j: int| 0 <= j < now.len() implies key_action(#[trigger] now[j], erase_enabled, eof_ends) != KeyAction::Finish by {
                    if j < i - 1 {
                        assert(now[j] == before[j]);
                    }
                }
            }
        }
    }
    proof {
        if !session@.finished {
            assert(keys@.take(i as int) =~= keys@);
        } else {
            assert(has_finish(keys@, erase_enabled, eof_ends)) by {
                assert(key_action(keys@[i - 1], erase_enabled, eof_ends) == KeyAction::Finish);
            }
        }
    }
    let finished = session.is_finished();
    CaptureTrace { secret: session.into_secret(), notes: sent, finished, consumed: i }
}

} // verus!
