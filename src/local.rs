use vstd::prelude::*;

verus! {

/// What one finished command reported: whether its status was success, and
/// what it wrote to its two output streams.
pub struct CommandOutput {
    pub success: bool,
    pub stdout: Vec<u8>,
    pub stderr: Vec<u8>,
}

/// The next thing the local update asks of its caller.
#[derive(Clone, Copy, Debug, PartialEq, Eq, Structural)]
pub enum LocalStep {
    /// Run the command that refreshes the package index.
    RefreshIndex,
    /// Run the command that applies the upgrades without asking.
    ApplyUpgrades,
    /// Nothing more to run; the local update succeeded or failed.
    Finished(bool),
}

/// The local update: refresh the package index, then, only if that succeeded,
/// apply the upgrades. The caller runs each command the machine asks for and
/// hands back what it reported.
pub struct LocalUpdate {
    step: LocalStep,
    outputs: Vec<CommandOutput>,
}

/// Every output in `outs` reported success.
pub open spec fn all_succeeded(outs: Seq<CommandOutput>) -> bool {
    forall|i: int| 0 <= i < outs.len() ==> (#[trigger] outs[i]).success
}

/// The bytes of all of `parts`, one after the other.
pub open spec fn concat(parts: Seq<Seq<u8>>) -> Seq<u8>
    decreases parts.len(),
{
    if parts.len() == 0 {
        Seq::empty()
    } else {
        concat(parts.drop_last()) + parts.last()
    }
}

pub open spec fn stdouts(outs: Seq<CommandOutput>) -> Seq<Seq<u8>> {
    outs.map_values(|o: CommandOutput| o.stdout@)
}

pub open spec fn stderrs(outs: Seq<CommandOutput>) -> Seq<Seq<u8>> {
    outs.map_values(|o: CommandOutput| o.stderr@)
}

impl LocalUpdate {
    pub closed spec fn step_spec(&self) -> LocalStep {
        self.step
    }

    /// The outputs of the commands run so far, in the order they ran.
    pub closed spec fn outputs(&self) -> Seq<CommandOutput> {
        self.outputs@
    }

    /// The upgrades are asked for only after a successful refresh, and the
    /// update ends in success only when both commands succeeded.
    pub closed spec fn wf(&self) -> bool {
        &&& self.outputs@.len() <= 2
        &&& self.outputs@.len() == 2 ==> self.outputs@[0].success
        &&& self.step == LocalStep::RefreshIndex ==> self.outputs@.len() == 0
        &&& self.step == LocalStep::ApplyUpgrades ==> self.outputs@.len() == 1
            && self.outputs@[0].success
        &&& self.step == LocalStep::Finished(true) ==> self.outputs@.len() == 2 && all_succeeded(
            self.outputs@,
        )
    }

    pub fn new() -> (r: LocalUpdate)
        ensures
            r.wf(),
            r.step_spec() == LocalStep::RefreshIndex,
            r.outputs().len() == 0,
    {
        LocalUpdate { step: LocalStep::RefreshIndex, outputs: Vec::new() }
    }

    /// The command to run next, or the verdict once there is none.
    pub fn step(&self) -> (r: LocalStep)
        ensures
            r == self.step_spec(),
    {
        self.step
    }

    /// Takes what the command that was asked for reported. A failed refresh ends
    /// the update in failure and the upgrades are never asked for; otherwise the
    /// update goes on to the upgrades, and ends with their status.
    pub fn command_finished(&mut self, output: CommandOutput)
        requires
            old(self).wf(),
            !(old(self).step_spec() is Finished),
        ensures
            final(self).wf(),
            final(self).outputs() == old(self).outputs().push(output),
            old(self).step_spec() == LocalStep::RefreshIndex ==> final(self).step_spec() == if output.success {
                LocalStep::ApplyUpgrades
            } else {
                LocalStep::Finished(false)
            },
            old(self).step_spec() == LocalStep::ApplyUpgrades ==> final(self).step_spec()
                == LocalStep::Finished(output.success),
    {
        let success = output.success;
        let next = match self.step {
            LocalStep::RefreshIndex => if success {
                LocalStep::ApplyUpgrades
            } else {
                LocalStep::Finished(false)
            },
            _ => LocalStep::Finished(success),
        };
        self.outputs.push(output);
        self.step = next;
    }

    /// The command that was asked for could not be started at all: the update
    /// ends in failure, and nothing more is run.
    pub fn command_not_started(&mut self)
        requires
            old(self).wf(),
        ensures
            final(self).wf(),
            final(self).outputs() == old(self).outputs(),
            final(self).step_spec() == LocalStep::Finished(false),
    {
        self.step = LocalStep::Finished(false);
    }

    /// What goes into the local log files: the standard output of every command
    /// run, one after the other, and likewise their standard error.
    pub fn log_streams(&self) -> (r: (Vec<u8>, Vec<u8>))
        ensures
            r.0@ == concat(stdouts(self.outputs())),
            r.1@ == concat(stderrs(self.outputs())),
    {
        let mut out: Vec<u8> = Vec::new();
        let mut err: Vec<u8> = Vec::new();
        let n = self.outputs.len();
        let mut i: usize = 0;
        while i < n
            invariant
                n == self.outputs@.len(),
                i <= n,
                out@ == concat(stdouts(self.outputs@.take(i as int))),
                err@ == concat(stderrs(self.outputs@.take(i as int))),
            decreases n - i,
        {
            let o = &self.outputs[i];
            let ghost prev = self.outputs@.take(i as int);
            let ghost next = self.outputs@.take(i + 1);
            assert(stdouts(next).drop_last() =~= stdouts(prev));
            assert(stderrs(next).drop_last() =~= stderrs(prev));
            append_bytes(&mut out, &o.stdout);
            append_bytes(&mut err, &o.stderr);
            i += 1;
        }
        assert(self.outputs@.take(n as int) =~= self.outputs@);
        (out, err)
    }
}

fn append_bytes(dst: &mut Vec<u8>, src: &Vec<u8>)
    ensures
        final(dst)@ == old(dst)@ + src@,
{
    let n = src.len();
    let mut i: usize = 0;
    while i < n
        invariant
            n == src@.len(),
            i <= n,
            dst@ == old(dst)@ + src@.take(i as int),
        decreases n - i,
    {
        dst.push(src[i]);
        assert(src@.take(i + 1) =~= src@.take(i as int).push(src@[i as int]));
        assert(dst@ =~= old(dst)@ + src@.take(i + 1));
        i += 1;
    }
    assert(src@.take(n as int) =~= src@);
}

/// Whatever results the commands report, the upgrades run only after a
/// refresh that succeeded: a machine that has run two commands saw the first
/// succeed, and a refresh that failed leaves nothing more to run.
pub proof fn lemma_failed_refresh_stops(u: LocalUpdate)
    requires
        u.wf(),
    ensures
        u.outputs().len() == 2 ==> u.outputs()[0].success,
        u.step_spec() == LocalStep::ApplyUpgrades ==> u.outputs().len() == 1
            && u.outputs()[0].success,
        u.step_spec() == LocalStep::Finished(true) ==> all_succeeded(u.outputs()),
{
}

} // verus!
