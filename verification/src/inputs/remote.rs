//! The RF remote: which button was pressed, and what that asks of the
//! rooms.
use crate::itho::{remote_status_name, Remote, RemoteStatus};
use crate::text::str_eq;
use std::time::Duration;
use vstd::prelude::*;

verus! {

/// The interval (in seconds) at which to check the remote status.
pub const INTERVAL: u64 = 15;

/// The rooms a button ventilates, and for how long.
pub struct Button {
    pub rooms: Vec<String>,
    pub duration: Duration,
}

impl Button {
    pub fn new(rooms: Vec<String>, duration: Duration) -> (button: Self)
        ensures
            button.rooms == rooms,
            button.duration == duration,
    {
        Self { rooms, duration }
    }
}

/// What a reading of the remote asks of the rooms.
pub enum RemoteAction {
    /// Nothing changes.
    Ignore,
    /// The timer of the button for this status expired: the rooms return to
    /// their status from before the button.
    Expire(RemoteStatus),
    /// The remote was set back to its default state: the rooms return to
    /// their status from before any button.
    Reset,
    /// A button was pressed: ventilate these rooms for this long.
    Enable(Vec<String>, Duration),
}

/// The button configured under a name.
pub open spec fn button_named(buttons: Seq<(String, Button)>, name: Seq<char>) -> Option<Button>
    decreases buttons.len(),
{
    if buttons.len() == 0 {
        None
    } else if buttons[0].0@ == name {
        Some(buttons[0].1)
    } else {
        button_named(buttons.drop_first(), name)
    }
}

/// An input monitoring the state of an RF button and adjusting ventilation
/// accordingly.
pub struct Input {
    /// The status of the RF remote.
    pub status: RemoteStatus,
    /// The timestamp of when the last command was received; zero until the
    /// first reading.
    pub timestamp: i64,
    /// The ID of the remote as used by the Itho WiFi API.
    pub id: String,
    /// The button states and the corresponding ventilation rules, by name.
    pub buttons: Vec<(String, Button)>,
}

impl Input {
    /// No two buttons share a name.
    pub open spec fn wf(&self) -> bool {
        forall|i: int, j: int|
            0 <= i < self.buttons@.len() && 0 <= j < self.buttons@.len() && i != j
                ==> self.buttons@[i].0@ != self.buttons@[j].0@
    }

    pub fn new(id: String) -> (input: Self)
        ensures
            input.wf(),
            input.status == RemoteStatus::Low,
            input.timestamp == 0,
            input.id == id,
            input.buttons@.len() == 0,
    {
        Input { status: RemoteStatus::Low, timestamp: 0, id: id, buttons: Vec::new() }
    }

    /// Configures a button, replacing the one of the same name.
    pub fn add_button(&mut self, name: String, button: Button)
        requires
            old(self).wf(),
        ensures
            final(self).wf(),
            (exists|i: int| 0 <= i < old(self).buttons@.len() && old(self).buttons@[i].0@ == name@)
                ==> exists|i: int|
                0 <= i < old(self).buttons@.len() && old(self).buttons@[i].0@ == name@
                    && final(self).buttons@ == old(self).buttons@.update(i, (name, button)),
            !(exists|i: int| 0 <= i < old(self).buttons@.len() && old(self).buttons@[i].0@ == name@)
                ==> final(self).buttons@ == old(self).buttons@.push((name, button)),
            final(self).status == old(self).status,
            final(self).timestamp == old(self).timestamp,
            final(self).id == old(self).id,
    {
        let mut i: usize = 0;
        while i < self.buttons.len()
            invariant
                i <= self.buttons@.len(),
                self.buttons@ == old(self).buttons@,
                old(self).wf(),
                self.status == old(self).status,
                self.timestamp == old(self).timestamp,
                self.id == old(self).id,
                forall|j: int| 0 <= j < i ==> old(self).buttons@[j].0@ != name@,
            decreases self.buttons@.len() - i,
        {
            if str_eq(self.buttons[i].0.as_str(), name.as_str()) {
                self.buttons.set(i, (name, button));
                return;
            }
            i = i + 1;
        }
        self.buttons.push((name, button));
    }

    /// Handles a reading of the remote; `expired` tells whether the timer
    /// of the current button has run out.
    ///
    /// The first reading is only taken note of, so that a button pressed
    /// before the program started is not acted upon. A reading with the
    /// same timestamp as the last one expires the current button once its
    /// timer has run out. A new reading sets the remote's status: `Low`
    /// resets the rooms, another status enables the button of its name, if
    /// one is configured.
    pub fn check(&mut self, remote: Remote, expired: bool) -> (action: RemoteAction)
        requires
            old(self).wf(),
        ensures
            final(self).wf(),
            final(self).id == old(self).id,
            final(self).buttons@ == old(self).buttons@,
            old(self).timestamp == 0 ==> action is Ignore && final(self).timestamp
                == remote.timestamp && final(self).status == old(self).status,
            old(self).timestamp != 0 && remote.timestamp == old(self).timestamp ==> {
                if old(self).status != RemoteStatus::Low && expired {
                    action == RemoteAction::Expire(old(self).status) && final(self).status
                        == RemoteStatus::Low && final(self).timestamp == old(self).timestamp
                } else {
                    action is Ignore && final(self).status == old(self).status
                        && final(self).timestamp == old(self).timestamp
                }
            },
            old(self).timestamp != 0 && remote.timestamp != old(self).timestamp ==> {
                &&& final(self).status == remote.status
                &&& final(self).timestamp == remote.timestamp
                &&& if remote.status == RemoteStatus::Low {
                    action is Reset
                } else {
                    match button_named(old(self).buttons@, remote_status_name(remote.status)) {
                        Some(b) => action matches RemoteAction::Enable(rooms, duration) && rooms@
                            == b.rooms@ && duration == b.duration,
                        None => action is Ignore,
                    }
                }
            },
    {
        // When starting up we ignore the current button state. This way if you
        // restart say six hours after pressing the Cook30 button, we don't
        // start ventilating according to that button again.
        if self.timestamp == 0 {
            self.timestamp = remote.timestamp;
            return RemoteAction::Ignore;
        }
        if remote.timestamp == self.timestamp {
            let reset = match self.status {
                RemoteStatus::Low => false,
                _ => expired,
            };
            if reset {
                let old = self.status;
                self.status = RemoteStatus::Low;
                return RemoteAction::Expire(old);
            }
            return RemoteAction::Ignore;
        }
        self.status = remote.status;
        self.timestamp = remote.timestamp;
        match self.status {
            RemoteStatus::Low => RemoteAction::Reset,
            state => {
                let name = state.name();
                let mut i: usize = 0;
                let ghost all = self.buttons@;
                assert(all.skip(0) =~= all);
                while i < self.buttons.len()
                    invariant
                        i <= self.buttons@.len(),
                        all == self.buttons@,
                        all == old(self).buttons@,
                        old(self).wf(),
                        self.id == old(self).id,
                        self.status == remote.status,
                        self.timestamp == remote.timestamp,
                        old(self).timestamp != 0,
                        remote.timestamp != old(self).timestamp,
                        remote.status != RemoteStatus::Low,
                        name@ == remote_status_name(remote.status),
                        button_named(all, name@) == button_named(all.skip(i as int), name@),
                    decreases self.buttons@.len() - i,
                {
                    let ghost rest = all.skip(i as int);
                    assert(rest[0] == all[i as int]);
                    assert(rest.drop_first() =~= all.skip(i + 1));
                    if str_eq(self.buttons[i].0.as_str(), name) {
                        let btn = &self.buttons[i].1;
                        assert(button_named(rest, name@) == Some(all[i as int].1));
                        return RemoteAction::Enable(clone_names(&btn.rooms), btn.duration);
                    }
                    i = i + 1;
                }
                RemoteAction::Ignore
            },
        }
    }
}

/// Copies a list of names.
fn clone_names(names: &Vec<String>) -> (copy: Vec<String>)
    ensures
        copy@ == names@,
{
    let mut copy: Vec<String> = Vec::new();
    let mut i: usize = 0;
    while i < names.len()
        invariant
            i <= names@.len(),
            copy@ == names@.take(i as int),
        decreases names@.len() - i,
    {
        copy.push(names[i].clone());
        i = i + 1;
        assert(copy@ =~= names@.take(i as int));
    }
    assert(names@.take(i as int) =~= names@);
    copy
}


/// Law: looking a button up by name finds the button of that name wherever
/// it stands among buttons with distinct names, and finds nothing when no
/// button has the name.
pub proof fn lemma_button_named_finds(buttons: Seq<(String, Button)>, name: Seq<char>)
    requires
        forall|i: int, j: int|
            0 <= i < buttons.len() && 0 <= j < buttons.len() && i != j ==> buttons[i].0@
                != buttons[j].0@,
    ensures
        forall|i: int|
            0 <= i < buttons.len() && buttons[i].0@ == name ==> button_named(buttons, name) == Some(
                #[trigger] buttons[i].1,
            ),
        (forall|i: int| 0 <= i < buttons.len() ==> (#[trigger] buttons[i]).0@ != name)
            ==> button_named(buttons, name) is None,
    decreases buttons.len(),
{
    if buttons.len() > 0 {
        let rest = buttons.drop_first();
        assert forall|i: int, j: int|
            0 <= i < rest.len() && 0 <= j < rest.len() && i != j implies rest[i].0@ != rest[j].0@ by {
            assert(rest[i] == buttons[i + 1]);
            assert(rest[j] == buttons[j + 1]);
        }
        lemma_button_named_finds(rest, name);
        assert forall|i: int|
            0 <= i < buttons.len() && buttons[i].0@ == name implies button_named(buttons, name)
                == Some(#[trigger] buttons[i].1) by {
            if i > 0 {
                assert(rest[i - 1] == buttons[i]);
                assert(buttons[0].0@ != buttons[i].0@);
            }
        }
        if forall|i: int| 0 <= i < buttons.len() ==> (#[trigger] buttons[i]).0@ != name {
            assert forall|i: int| 0 <= i < rest.len() implies (#[trigger] rest[i]).0@ != name by {
                assert(rest[i] == buttons[i + 1]);
            }
            assert(buttons[0].0@ != name);
        }
    }
}

} // verus!
