use vstd::prelude::*;

verus! {

/// `sysinfo::System`, carried as an opaque value.
#[verifier::external_type_specification]
#[verifier::external_body]
pub struct ExSystem(sysinfo::System);

/// `sysinfo::Process`, carried as an opaque value.
#[verifier::external_type_specification]
#[verifier::external_body]
pub struct ExProcess(sysinfo::Process);

/// The processes that a `sysinfo::System` snapshot holds: each process id
/// with the process's name, as text converted lossily from the OS string.
pub uninterp spec fn system_processes(system: sysinfo::System) -> Map<u32, Seq<char>>;

/// `sysinfo::System::new`: a snapshot with nothing loaded, so it holds no process.
#[verifier::external_body]
fn system_new() -> (s: sysinfo::System)
    ensures
        system_processes(s).dom() == Set::<u32>::empty(),
{
    sysinfo::System::new()
}

/// `sysinfo::System::refresh_all`: reloads the snapshot from the machine;
/// which processes it then holds is not stated.
#[verifier::external_body]
fn system_refresh_all(s: &mut sysinfo::System) {
    s.refresh_all();
}

/// A snapshot of the machine's processes, and the ids of those it was used
/// to send the kill signal, in order. Only `kill` adds to that record.
pub struct Snapshot {
    system: sysinfo::System,
    signalled: Ghost<Seq<u32>>,
}

impl Snapshot {
    /// The processes the snapshot holds, each id with its name.
    pub closed spec fn names(&self) -> Map<u32, Seq<char>> {
        system_processes(self.system)
    }

    /// The ids of the processes sent the kill signal through this snapshot, in order.
    pub closed spec fn signalled(&self) -> Seq<u32> {
        self.signalled@
    }

    /// A fresh snapshot of the machine's processes, through which no
    /// process was signalled yet.
    pub fn new() -> (s: Self)
        ensures
            s.signalled() == Seq::<u32>::empty(),
    {
        let mut system = system_new();
        system_refresh_all(&mut system);
        Snapshot { system, signalled: Ghost(Seq::empty()) }
    }

    /// `sysinfo::System::process`: whether the snapshot holds the process
    /// with the given id.
    #[verifier::external_body]
    pub(crate) fn holds(&self, pid: u32) -> (b: bool)
        ensures
            b == self.names().contains_key(pid),
    {
        self.system.process(sysinfo::Pid::from_u32(pid)).is_some()
    }

    /// `sysinfo::System::process`, then `Process::name` converted lossily to
    /// text: the name the snapshot holds for the process with the given id,
    /// if it holds one.
    #[verifier::external_body]
    pub(crate) fn name_of(&self, pid: u32) -> (r: Option<String>)
        ensures
            match r {
                Some(n) => self.names().contains_key(pid) && n@ == self.names()[pid],
                None => !self.names().contains_key(pid),
            },
    {
        match self.system.process(sysinfo::Pid::from_u32(pid)) {
            Some(p) => Some(p.name().to_string_lossy().into_owned()),
            None => None,
        }
    }

    /// `sysinfo::System::process`, then `Process::kill`: sends the kill
    /// signal to the process with the given id, which the snapshot holds.
    /// The record of signalled processes gains that id, and the snapshot is
    /// unchanged. Whether the signal was delivered is not stated.
    #[verifier::external_body]
    pub(crate) fn kill(&mut self, pid: u32)
        requires
            old(self).names().contains_key(pid),
        ensures
            final(self).signalled() == old(self).signalled().push(pid),
            final(self).names() == old(self).names(),
    {
        match self.system.process(sysinfo::Pid::from_u32(pid)) {
            Some(p) => {
                p.kill();
            },
            None => {},
        }
    }
}

} // verus!
