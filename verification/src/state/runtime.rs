use vstd::prelude::*;

use crate::types::{LoginInfo, Status};

verus! {

/// What the bridge knows of its upstream session: the login and whether
/// the upstream connection is up.
pub struct Runtime {
    login: LoginInfo,
    upstream_connected: bool,
}

impl Runtime {
    /// The login last set.
    pub closed spec fn login_spec(&self) -> LoginInfo {
        self.login
    }

    /// Whether the upstream connection is up.
    pub closed spec fn connected(&self) -> bool {
        self.upstream_connected
    }

    /// Online when connected; good when also logged in with a non-zero id.
    pub open spec fn status_spec(&self) -> Status {
        Status {
            online: self.connected(),
            good: self.connected() && self.login_spec().self_id != 0,
        }
    }

    /// A fresh runtime: no login, not connected.
    pub fn new() -> (r: Self)
        ensures
            r.login_spec().self_id == 0,
            r.login_spec().nickname@.len() == 0,
            !r.connected(),
    {
        Runtime { login: LoginInfo::default(), upstream_connected: false }
    }

    pub fn set_login(&mut self, info: LoginInfo)
        ensures
            final(self).login_spec() == info,
            final(self).connected() == old(self).connected(),
    {
        self.login = info;
    }

    /// A copy of the login.
    pub fn login(&self) -> (r: LoginInfo)
        ensures
            r == self.login_spec(),
    {
        self.login.clone()
    }

    pub fn set_upstream_connected(&mut self, connected: bool)
        ensures
            final(self).connected() == connected,
            final(self).login_spec() == old(self).login_spec(),
    {
        self.upstream_connected = connected;
    }

    pub fn status(&self) -> (s: Status)
        ensures
            s == self.status_spec(),
    {
        Status {
            online: self.upstream_connected,
            good: self.upstream_connected && self.login.self_id != 0,
        }
    }
}

impl Default for Runtime {
    fn default() -> (r: Self)
        ensures
            r.login_spec().self_id == 0,
            r.login_spec().nickname@.len() == 0,
            !r.connected(),
    {
        Runtime::new()
    }
}

/// A good status is always an online one.
pub proof fn law_good_implies_online(rt: Runtime)
    ensures
        rt.status_spec().good ==> rt.status_spec().online,
{
}

/// One call that changes a runtime.
pub enum RuntimeStep {
    SetLogin(LoginInfo),
    SetConnected(bool),
}

/// Whether `b` is what the call `step` leaves of `a`, as `set_login` and
/// `set_upstream_connected` say.
pub open spec fn runtime_step(a: Runtime, step: RuntimeStep, b: Runtime) -> bool {
    match step {
        RuntimeStep::SetLogin(l) => b.login_spec() == l && b.connected() == a.connected(),
        RuntimeStep::SetConnected(c) => b.connected() == c && b.login_spec() == a.login_spec(),
    }
}

/// The argument of the last `set_upstream_connected`, or `false` when there
/// was none.
pub open spec fn last_connected(steps: Seq<RuntimeStep>) -> bool
    decreases steps.len(),
{
    if steps.len() == 0 {
        false
    } else {
        match steps.last() {
            RuntimeStep::SetConnected(c) => c,
            RuntimeStep::SetLogin(_) => last_connected(steps.drop_last()),
        }
    }
}

/// The id of the last `set_login`, or 0 when there was none.
pub open spec fn last_self_id(steps: Seq<RuntimeStep>) -> i64
    decreases steps.len(),
{
    if steps.len() == 0 {
        0
    } else {
        match steps.last() {
            RuntimeStep::SetLogin(l) => l.self_id,
            RuntimeStep::SetConnected(_) => last_self_id(steps.drop_last()),
        }
    }
}

/// The status after any sequence of calls on a new runtime: online exactly
/// when the last `set_upstream_connected` said so (never, before one), and
/// good exactly when also the last login has a non-zero id.
pub proof fn law_status_after_calls(rts: Seq<Runtime>, steps: Seq<RuntimeStep>)
    requires
        rts.len() == steps.len() + 1,
        rts[0].login_spec().self_id == 0,
        !rts[0].connected(),
        forall|i: int| 0 <= i < steps.len() ==> runtime_step(#[trigger] rts[i], steps[i], rts[i + 1]),
    ensures
        rts.last().connected() == last_connected(steps),
        rts.last().login_spec().self_id == last_self_id(steps),
        rts.last().status_spec().online == last_connected(steps),
        rts.last().status_spec().good == (last_connected(steps) && last_self_id(steps) != 0),
    decreases steps.len(),
{
    if steps.len() > 0 {
        let n = steps.len() - 1;
        let prev = rts.drop_last();
        assert forall|i: int| 0 <= i < steps.drop_last().len() implies runtime_step(
            #[trigger] prev[i],
            steps.drop_last()[i],
            prev[i + 1],
        ) by {
            assert(runtime_step(rts[i], steps[i], rts[i + 1]));
        }
        law_status_after_calls(prev, steps.drop_last());
        assert(runtime_step(rts[n], steps[n], rts[n + 1]));
        assert(prev.last() == rts[n]);
    }
}

} // verus!
