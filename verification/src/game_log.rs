use vstd::prelude::*;

verus! {

/// The message log shown in the HUD; the newest message comes first.
pub struct GameLog {
    pub entries: Vec<String>,
}

impl GameLog {
    /// A log with no messages.
    pub fn new() -> (log: GameLog)
        ensures
            log.entries@.len() == 0,
    {
        GameLog { entries: Vec::new() }
    }

    /// Puts `message` in front of every earlier message.
    pub fn add(&mut self, message: String)
        ensures
            final(self).entries.deep_view() == seq![message@] + old(self).entries.deep_view(),
    {
        let ghost m = message@;
        self.entries.insert(0, message);
        assert(self.entries.deep_view() =~= seq![m] + old(self).entries.deep_view());
    }
}

} // verus!
