//! Commands and the set of enabled commands.
use vstd::prelude::*;

verus! {

/// A command.
#[derive(Clone, Copy, Debug, PartialEq, Eq, Hash, Structural)]
pub enum Command {
    /// `cmValid`.
    Valid,
    /// `cmQuit`.
    Quit,
    /// `cmError`.
    Error,
    /// `cmMenu`.
    Menu,
    /// `cmClose`.
    Close,
    /// `cmZoom`.
    Zoom,
    /// `cmResize`.
    Resize,
    /// `cmNext`.
    Next,
    /// `cmPrev`.
    Prev,
    /// `cmHelp`.
    Help,
    /// `cmOK` (accept a dialog).
    Accept,
    /// `cmCancel`.
    Cancel,
    /// `cmCut`.
    Cut,
    /// `cmCopy` (copy the selection).
    CopyText,
    /// `cmPaste`.
    Paste,
    /// `cmSave`.
    Save,
    /// `cmReceivedFocus` (broadcast).
    ReceivedFocus,
    /// `cmReleasedFocus` (broadcast).
    ReleasedFocus,
    /// `cmCommandSetChanged` (broadcast).
    CommandSetChanged,
    /// `cmScrollBarChanged` (broadcast).
    ScrollBarChanged,
    /// `cmScrollBarClicked` (broadcast).
    ScrollBarClicked,
    /// `cmSelectWindowNum` (broadcast).
    SelectWindowNum,
    /// `cmListItemSelected` (broadcast).
    ListItemSelected,
}

/// A set of enabled commands (`TCommandSet`). A new set is empty.
#[derive(Clone, Debug)]
pub struct CommandSet {
    enabled: Vec<Command>,
}

impl CommandSet {
    /// The codes of the enabled commands.
    pub closed spec fn spec_codes(&self) -> Set<Command> {
        self.enabled@.to_set()
    }

    /// Is `cmd` in the set?
    pub open spec fn spec_has(&self, cmd: Command) -> bool {
        self.spec_codes().contains(cmd)
    }

    /// The empty command set.
    pub fn new() -> (cs: Self)
        ensures
            cs.spec_codes() == Set::<Command>::empty(),
    {
        let cs = CommandSet { enabled: Vec::new() };
        assert(cs.enabled@.to_set() =~= Set::<Command>::empty());
        cs
    }

    /// A copy of the set.
    pub fn snapshot(&self) -> (r: Self)
        ensures
            r.spec_codes() == self.spec_codes(),
    {
        let mut v: Vec<Command> = Vec::new();
        let mut i: usize = 0;
        while i < self.enabled.len()
            invariant
                i <= self.enabled@.len(),
                v@ == self.enabled@.take(i as int),
            decreases self.enabled@.len() - i,
        {
            v.push(self.enabled[i]);
            assert(v@ =~= self.enabled@.take(i as int + 1));
            i = i + 1;
        }
        assert(self.enabled@.take(self.enabled@.len() as int) =~= self.enabled@);
        CommandSet { enabled: v }
    }

    /// Is `cmd` enabled in this set?
    pub fn has(&self, cmd: Command) -> (r: bool)
        ensures
            r == self.spec_has(cmd),
    {
        let mut i: usize = 0;
        while i < self.enabled.len()
            invariant
                i <= self.enabled@.len(),
                forall|j: int| 0 <= j < i ==> self.enabled@[j] != cmd,
            decreases self.enabled@.len() - i,
        {
            if self.enabled[i] == cmd {
                assert(self.enabled@.to_set().contains(self.enabled@[i as int]));
                return true;
            }
            i = i + 1;
        }
        assert(!self.enabled@.to_set().contains(cmd)) by {
            if self.enabled@.to_set().contains(cmd) {
                let j = choose|j: int| 0 <= j < self.enabled@.len() && self.enabled@[j] == cmd;
                assert(self.enabled@[j] == cmd);
            }
        }
        false
    }

    /// Add `cmd` to the set.
    pub fn enable_cmd(&mut self, cmd: Command)
        ensures
            final(self).spec_codes() == old(self).spec_codes().insert(cmd),
    {
        let ghost before = self.enabled@;
        self.enabled.push(cmd);
        assert(self.enabled@ == before.push(cmd));
        assert(self.enabled@.to_set() =~= before.to_set().insert(cmd)) by {
            assert forall|c: Command| self.enabled@.to_set().contains(c) implies before.to_set().insert(
                cmd,
            ).contains(c) by {
                let j = choose|j: int| 0 <= j < self.enabled@.len() && self.enabled@[j] == c;
                if j < before.len() {
                    assert(before[j] == c);
                }
            }
            assert forall|c: Command| before.to_set().insert(cmd).contains(c) implies self.enabled@.to_set().contains(c) by {
                if c == cmd {
                    assert(self.enabled@[before.len() as int] == c);
                } else {
                    let j = choose|j: int| 0 <= j < before.len() && before[j] == c;
                    assert(self.enabled@[j] == c);
                }
            }
        }
    }

    /// Remove `cmd` from the set.
    pub fn disable_cmd(&mut self, cmd: Command)
        ensures
            final(self).spec_codes() == old(self).spec_codes().remove(cmd),
    {
        let ghost before = self.enabled@;
        let mut kept: Vec<Command> = Vec::new();
        let mut i: usize = 0;
        while i < self.enabled.len()
            invariant
                i <= self.enabled@.len(),
                self.enabled@ == before,
                forall|c: Command| kept@.contains(c) <==> (c != cmd && exists|j: int| 0 <= j < i && before[j] == c),
            decreases self.enabled@.len() - i,
        {
            let c = self.enabled[i];
            if c != cmd {
                let ghost k0 = kept@;
                kept.push(c);
                assert forall|d: Command| kept@.contains(d) <==> (d != cmd && exists|j: int| 0 <= j < i + 1 && before[j] == d) by {
                    if kept@.contains(d) {
                        let m = choose|m: int| 0 <= m < kept@.len() && kept@[m] == d;
                        if m < k0.len() {
                            assert(k0.contains(d));
                        } else {
                            assert(before[i as int] == d);
                        }
                    }
                    if d != cmd && exists|j: int| 0 <= j < i + 1 && before[j] == d {
                        let j = choose|j: int| 0 <= j < i + 1 && before[j] == d;
                        if j < i {
                            assert(k0.contains(d));
                            let m = choose|m: int| 0 <= m < k0.len() && k0[m] == d;
                            assert(kept@[m] == d);
                        } else {
                            assert(kept@[k0.len() as int] == d);
                        }
                    }
                }
            } else {
                assert forall|d: Command| kept@.contains(d) <==> (d != cmd && exists|j: int| 0 <= j < i + 1 && before[j] == d) by {
                    if d != cmd && exists|j: int| 0 <= j < i + 1 && before[j] == d {
                        let j = choose|j: int| 0 <= j < i + 1 && before[j] == d;
                        assert(j < i);
                    }
                }
            }
            i = i + 1;
        }
        self.enabled = kept;
        assert(self.enabled@.to_set() =~= before.to_set().remove(cmd)) by {
            assert forall|c: Command| self.enabled@.to_set().contains(c) <==> before.to_set().remove(cmd).contains(c) by {
                assert(self.enabled@.to_set().contains(c) <==> self.enabled@.contains(c));
                assert(before.to_set().contains(c) <==> before.contains(c));
            }
        }
    }
}

/// After enabling a command the set has it; after disabling it the set does
/// not; other commands are unaffected.
pub proof fn law_enable_disable(cs: Set<Command>, cmd: Command, other: Command)
    requires
        other != cmd,
    ensures
        cs.insert(cmd).contains(cmd),
        !cs.remove(cmd).contains(cmd),
        cs.insert(cmd).contains(other) == cs.contains(other),
        cs.remove(cmd).contains(other) == cs.contains(other),
{
}

} // verus!
