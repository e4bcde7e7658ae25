//! SSH sessions: checking and planning a connection, describing an open
//! session, and the table of open sessions.
use vstd::prelude::*;
use crate::errors::{invalid_input, AppError, ErrorView};
use crate::registry::Registry;
use crate::text::{
    all_digits, concat_str, decimal, digits_value, is_blank_str, lemma_decimal_reads_back, push_decimal,
    trim, trim_str,
};

verus! {

/// How a connection authenticates.
#[derive(Clone)]
pub enum AuthMethod {
    /// No credentials: the server is asked which methods it accepts, which
    /// lets servers without client authentication admit the user.
    Anonymous,
    Password { password: String },
    PrivateKey { private_key_path: String, passphrase: Option<String> },
}

/// A request to open an SSH session.
#[derive(Clone)]
pub struct ConnectRequest {
    pub host: String,
    pub port: u16,
    pub username: String,
    pub auth: AuthMethod,
    pub label: Option<String>,
}

/// An instant in UTC: whole seconds since the Unix epoch and the
/// nanoseconds past that second.
#[derive(Clone, Copy, Debug, PartialEq, Eq, Structural, PartialOrd, Ord)]
pub struct UtcTime {
    pub secs: i64,
    pub nanos: u32,
}

/// Whether `a` is the same instant as `b` or later.
pub open spec fn not_before(a: UtcTime, b: UtcTime) -> bool {
    a.secs > b.secs || (a.secs == b.secs && a.nanos >= b.nanos)
}

/// Whether `a` is the same instant as `b` or later.
pub fn is_not_before(a: UtcTime, b: UtcTime) -> (r: bool)
    ensures
        r == not_before(a, b),
        a.secs != b.secs ==> (r <==> a.secs > b.secs),
        a.secs == b.secs ==> (r <==> a.nanos >= b.nanos),
{
    a.secs > b.secs || (a.secs == b.secs && a.nanos >= b.nanos)
}

/// What the user interface shows of an open session.
pub struct SessionInfo {
    pub id: String,
    pub label: String,
    pub host: String,
    pub port: u16,
    pub username: String,
    pub connected_at: UtcTime,
    pub last_active_at: UtcTime,
}

/// An open session: its description, the request that opened it, and the
/// live connection `C`.
pub struct SshSession<C> {
    pub info: SessionInfo,
    pub request: ConnectRequest,
    pub connection: C,
}

/// The authentication step of a connection.
pub enum AuthStep {
    /// Ask the server for its methods.
    Probe,
    Password { password: String },
    PublicKeyFile { path: String, passphrase: Option<String> },
}

/// How to open a connection: the address to dial, the user to log in as,
/// and how to authenticate.
pub struct ConnectPlan {
    pub address: String,
    pub username: String,
    pub auth: AuthStep,
}

/// The address dialled for `host` and `port`: the trimmed host, a colon and
/// the port in decimal.
pub open spec fn ssh_address(host: Seq<char>, port: u16) -> Seq<char> {
    trim(host) + ":"@ + decimal(port as nat)
}

/// The label of a session: the requested one where it is more than
/// whitespace, else `user@host`.
pub open spec fn session_label_of(label: Option<Seq<char>>, username: Seq<char>, host: Seq<char>) -> Seq<char> {
    match label {
        Some(l) => if trim(l).len() > 0 {
            l
        } else {
            username + "@"@ + host
        },
        None => username + "@"@ + host,
    }
}

/// The authentication step for a method; a key path is trimmed.
pub open spec fn auth_step_matches(m: AuthMethod, s: AuthStep) -> bool {
    match m {
        AuthMethod::Anonymous => s is Probe,
        AuthMethod::Password { password } => s matches AuthStep::Password { password: p }
            && p@ == password@,
        AuthMethod::PrivateKey { private_key_path, passphrase } => s matches AuthStep::PublicKeyFile {
            path,
            passphrase: q,
        } && path@ == trim(private_key_path@) && q == passphrase,
    }
}

/// The texts of an optional string.
pub open spec fn opt_view(o: Option<String>) -> Option<Seq<char>> {
    match o {
        Some(s) => Some(s@),
        None => None,
    }
}

/// A connection plan for `request`; refused where the host or the user name
/// is blank.
pub fn plan_connect(request: &ConnectRequest) -> (r: Result<ConnectPlan, AppError>)
    ensures
        r is Ok <==> trim(request.host@).len() > 0 && trim(request.username@).len() > 0,
        r matches Err(e) ==> e@ == ErrorView::InvalidInput("host and username are required"@),
        r matches Ok(p) ==> {
            &&& p.address@ == ssh_address(request.host@, request.port)
            &&& p.address@ == trim(request.host@) + ":"@ + decimal(request.port as nat)
            &&& p.username@ == trim(request.username@)
            &&& auth_step_matches(request.auth, p.auth)
        },
{
    if is_blank_str(request.host.as_str()) || is_blank_str(request.username.as_str()) {
        return Err(invalid_input("host and username are required"));
    }
    let host = trim_str(request.host.as_str());
    let mut address = concat_str(host.as_str(), ":");
    push_decimal(&mut address, request.port as u64);
    let auth = match &request.auth {
        AuthMethod::Anonymous => AuthStep::Probe,
        AuthMethod::Password { password } => AuthStep::Password { password: password.clone() },
        AuthMethod::PrivateKey { private_key_path, passphrase } => AuthStep::PublicKeyFile {
            path: trim_str(private_key_path.as_str()),
            passphrase: match passphrase {
                Some(p) => Some(p.clone()),
                None => None,
            },
        },
    };
    Ok(ConnectPlan { address, username: trim_str(request.username.as_str()), auth })
}

/// The label of a session.
pub fn session_label(label: &Option<String>, username: &str, host: &str) -> (r: String)
    ensures
        r@ == session_label_of(opt_view(*label), username@, host@),
{
    match label {
        Some(l) => {
            if !is_blank_str(l.as_str()) {
                return l.clone();
            }
        },
        None => {},
    }
    let user_at = concat_str(username, "@");
    concat_str(user_at.as_str(), host)
}

/// The description of a session opened by `request` under `id` at `now`.
pub fn session_info(request: &ConnectRequest, id: String, now: UtcTime) -> (r: SessionInfo)
    ensures
        r.id@ == id@,
        r.label@ == session_label_of(opt_view(request.label), request.username@, request.host@),
        r.host@ == request.host@,
        r.port == request.port,
        r.username@ == request.username@,
        r.connected_at == now,
        r.last_active_at == now,
{
    SessionInfo {
        id,
        label: session_label(&request.label, request.username.as_str(), request.host.as_str()),
        host: request.host.clone(),
        port: request.port,
        username: request.username.clone(),
        connected_at: now,
        last_active_at: now,
    }
}

/// The current time in UTC: `chrono`'s `Utc::now`, read as its seconds
/// since the epoch (`timestamp`) and the nanoseconds past them
/// (`timestamp_subsec_nanos`). Nothing is claimed of the value: it is the
/// clock's.
#[verifier::external_body]
pub fn now_utc() -> UtcTime {
    let t = chrono::Utc::now();
    UtcTime { secs: t.timestamp(), nanos: t.timestamp_subsec_nanos() }
}

/// Whether `c` is a lower-case hexadecimal digit.
pub open spec fn is_lower_hex(c: char) -> bool {
    ('0' <= c && c <= '9') || ('a' <= c && c <= 'f')
}

/// Whether `t` is the text of a random (version 4) UUID: 36 characters,
/// hyphens at positions 8, 13, 18 and 23, lower-case hexadecimal digits
/// elsewhere, the version digit `4` at position 14 and a variant digit of
/// `8`, `9`, `a` or `b` at position 19.
pub open spec fn is_v4_uuid_text(t: Seq<char>) -> bool {
    &&& t.len() == 36
    &&& forall|i: int|
        0 <= i < 36 ==> if i == 8 || i == 13 || i == 18 || i == 23 {
            t[i] == '-'
        } else {
            is_lower_hex(#[trigger] t[i])
        }
    &&& t[14] == '4'
    &&& (t[19] == '8' || t[19] == '9' || t[19] == 'a' || t[19] == 'b')
}

/// A fresh random identifier: `uuid`'s `Uuid::new_v4` in its hyphenated
/// text form. `new_v4` masks the random bits to set the version nibble to 4
/// and the variant bits to `10`; the text is lower-case hexadecimal with
/// hyphens. Which random digits come is not claimed.
#[verifier::external_body]
pub(crate) fn new_id() -> (r: String)
    ensures
        is_v4_uuid_text(r@),
{
    uuid::Uuid::new_v4().to_string()
}

/// The description of the session that `request` opened once the server
/// reported whether it authenticated the user: a fresh identifier, the
/// current time; refused where the server did not authenticate.
pub fn finish_connect(request: &ConnectRequest, authenticated: bool) -> (r: Result<
    SessionInfo,
    AppError,
>)
    ensures
        r is Ok <==> authenticated,
        r matches Err(e) ==> e@ == ErrorView::AuthFailed,
        r matches Ok(info) ==> {
            &&& is_v4_uuid_text(info.id@)
            &&& info.label@ == session_label_of(
                opt_view(request.label),
                request.username@,
                request.host@,
            )
            &&& info.host@ == request.host@
            &&& info.port == request.port
            &&& info.username@ == request.username@
            &&& info.connected_at == info.last_active_at
        },
{
    if !authenticated {
        return Err(AppError::AuthFailed);
    }
    let id = new_id();
    let now = now_utc();
    Ok(session_info(request, id, now))
}

impl SessionInfo {
    /// A copy of this description.
    pub fn duplicate(&self) -> (r: SessionInfo)
        ensures
            r == *self,
    {
        SessionInfo {
            id: self.id.clone(),
            label: self.label.clone(),
            host: self.host.clone(),
            port: self.port,
            username: self.username.clone(),
            connected_at: self.connected_at,
            last_active_at: self.last_active_at,
        }
    }
}

/// Records activity on a session at time `now`; nothing else changes.
pub fn touch_session<C>(session: &mut SshSession<C>, now: UtcTime)
    ensures
        final(session).request == old(session).request,
        final(session).connection == old(session).connection,
        final(session).info == (SessionInfo { last_active_at: now, ..old(session).info }),
{
    session.info.last_active_at = now;
}

/// Records activity on a session at the current time; nothing else changes.
/// The time recorded is the clock's reading (`now_utc`), of which nothing
/// is known, so no clause states it; `touch_session` states the step for a
/// given time.
pub fn set_last_active<C>(session: &mut SshSession<C>)
    ensures
        final(session).request == old(session).request,
        final(session).connection == old(session).connection,
        final(session).info == (SessionInfo {
            last_active_at: final(session).info.last_active_at,
            ..old(session).info
        }),
{
    let now = now_utc();
    touch_session(session, now);
}

/// Records activity at time `now` on the session `id`, where it is open;
/// nothing else changes.
pub fn mark_active_at<C>(sessions: &mut Registry<SshSession<C>>, id: &str, now: UtcTime)
    ensures
        final(sessions)@.dom() == old(sessions)@.dom(),
        forall|k: Seq<char>| k != id@ ==> #[trigger] final(sessions)@.index(k) == old(sessions)@.index(k),
        old(sessions)@.contains_key(id@) ==> {
            let before = old(sessions)@[id@];
            let after = final(sessions)@[id@];
            &&& after.request == before.request
            &&& after.connection == before.connection
            &&& after.info == (SessionInfo { last_active_at: now, ..before.info })
        },
{
    match sessions.remove(id) {
        Some(mut s) => {
            touch_session(&mut s, now);
            sessions.insert(id.to_owned(), s);
            assert(final(sessions)@.dom() =~= old(sessions)@.dom());
        },
        None => {
            assert(final(sessions)@ =~= old(sessions)@);
        },
    }
}

/// Records activity at the current time on the session `id`, where it is
/// open; nothing else changes. The time recorded is the clock's reading
/// (`now_utc`), of which nothing is known, so no clause states it;
/// `mark_active_at` states the step for a given time.
pub fn mark_active<C>(sessions: &mut Registry<SshSession<C>>, id: &str)
    ensures
        final(sessions)@.dom() == old(sessions)@.dom(),
        forall|k: Seq<char>| k != id@ ==> #[trigger] final(sessions)@.index(k) == old(sessions)@.index(k),
        old(sessions)@.contains_key(id@) ==> {
            let before = old(sessions)@[id@];
            let after = final(sessions)@[id@];
            &&& after.request == before.request
            &&& after.connection == before.connection
            &&& after.info == (SessionInfo { last_active_at: after.info.last_active_at, ..before.info })
        },
{
    let now = now_utc();
    mark_active_at(sessions, id, now);
}

/// The session `id`, or the error that no such session is open.
pub fn find_session<'a, C>(sessions: &'a Registry<SshSession<C>>, id: &str) -> (r: Result<
    &'a SshSession<C>,
    AppError,
>)
    ensures
        r is Ok <==> sessions@.contains_key(id@),
        r matches Ok(s) ==> *s == sessions@[id@],
        r matches Err(e) ==> e@ == ErrorView::SessionNotFound,
{
    match sessions.get(id) {
        Some(s) => Ok(s),
        None => Err(AppError::SessionNotFound),
    }
}

/// Closes the table entry of session `id`, handing back the session; the
/// error that no such session is open otherwise.
pub fn remove_session<C>(sessions: &mut Registry<SshSession<C>>, id: &str) -> (r: Result<
    SshSession<C>,
    AppError,
>)
    ensures
        r is Ok <==> old(sessions)@.contains_key(id@),
        r matches Ok(s) ==> s == old(sessions)@[id@],
        r matches Err(e) ==> e@ == ErrorView::SessionNotFound,
        final(sessions)@ == old(sessions)@.remove(id@),
{
    match sessions.remove(id) {
        Some(s) => Ok(s),
        None => Err(AppError::SessionNotFound),
    }
}


/// Adds an opened session to the table under its identifier, handing back
/// its description.
pub fn register_session<C>(sessions: &mut Registry<SshSession<C>>, session: SshSession<C>) -> (r:
    SessionInfo)
    ensures
        r == session.info,
        final(sessions)@ == old(sessions)@.insert(session.info.id@, session),
{
    let info = session.info.duplicate();
    let id = info.id.clone();
    sessions.insert(id, session);
    info
}

/// Whether the sessions are ordered newest connection first.
pub open spec fn newest_first(s: Seq<SessionInfo>) -> bool {
    forall|i: int, j: int| 0 <= i < j < s.len() ==> not_before(s[i].connected_at, s[j].connected_at)
}

/// The descriptions of the sessions held in `sessions`, in table order.
pub open spec fn infos_of<C>(sessions: Seq<SshSession<C>>) -> Seq<SessionInfo> {
    sessions.map_values(|s: SshSession<C>| s.info)
}

/// Places `x` after every description at least as new as it.
fn insert_by_connected_desc(sorted: &mut Vec<SessionInfo>, x: SessionInfo)
    requires
        newest_first(old(sorted)@),
    ensures
        newest_first(final(sorted)@),
        final(sorted)@.to_multiset() == old(sorted)@.to_multiset().insert(x),
{
    let mut p: usize = 0;
    while p < sorted.len() && is_not_before(sorted[p].connected_at, x.connected_at)
        invariant
            p <= sorted@.len(),
            sorted@ == old(sorted)@,
            forall|k: int| 0 <= k < p ==> not_before((#[trigger] sorted@[k]).connected_at, x.connected_at),
        decreases sorted@.len() - p,
    {
        p = p + 1;
    }
    let ghost before = sorted@;
    proof {
        vstd::seq_lib::to_multiset_insert(before, p as int, x);
    }
    sorted.insert(p, x);
    assert forall|i: int, j: int| 0 <= i < j < sorted@.len() implies not_before(sorted@[i].connected_at,
        sorted@[j].connected_at) by {
        if j < p {
            assert(sorted@[i] == before[i]);
            assert(sorted@[j] == before[j]);
        } else if i < p && j == p {
            assert(sorted@[i] == before[i]);
            assert(not_before(before[i].connected_at, x.connected_at));
        } else if i < p && j > p {
            assert(sorted@[i] == before[i]);
            assert(sorted@[j] == before[j - 1]);
            assert(not_before(before[i].connected_at, before[j - 1].connected_at));
        } else if i == p {
            assert(sorted@[j] == before[j - 1]);
            assert(!not_before(before[p as int].connected_at, x.connected_at));
            assert(not_before(before[p as int].connected_at, before[j - 1].connected_at));
        } else {
            assert(sorted@[i] == before[i - 1]);
            assert(sorted@[j] == before[j - 1]);
        }
    }
}

/// The descriptions of all open sessions, newest connection first
/// (`list_sessions`).
pub fn sessions_newest_first<C>(sessions: &Registry<SshSession<C>>) -> (r: Vec<SessionInfo>)
    ensures
        newest_first(r@),
        forall|i: int, j: int|
            0 <= i < j < r@.len() ==> (#[trigger] r@[i]).connected_at.secs > (#[trigger] r@[j]).connected_at.secs
                || (r@[i].connected_at.secs == r@[j].connected_at.secs && r@[i].connected_at.nanos
                >= r@[j].connected_at.nanos),
        r@.to_multiset() == infos_of(sessions.values_seq()).to_multiset(),
{
    let ghost infos = infos_of(sessions.values_seq());
    let mut sorted: Vec<SessionInfo> = Vec::new();
    let n = sessions.len();
    let mut i: usize = 0;
    proof {
        assert(infos.take(0) =~= Seq::<SessionInfo>::empty());
        infos.take(0).to_multiset_ensures();
        sorted@.to_multiset_ensures();
    }
    while i < n
        invariant
            i <= n == sessions.entries_seq().len(),
            infos == infos_of(sessions.values_seq()),
            infos.len() == n,
            newest_first(sorted@),
            sorted@.to_multiset() == infos.take(i as int).to_multiset(),
        decreases n - i,
    {
        let (_, s) = sessions.entry_at(i);
        let x = s.info.duplicate();
        proof {
            assert(x == infos[i as int]);
            assert(infos.take(i + 1) =~= infos.take(i as int).push(x));
            vstd::seq_lib::to_multiset_build(infos.take(i as int), x);
        }
        insert_by_connected_desc(&mut sorted, x);
        i = i + 1;
    }
    assert(infos.take(n as int) =~= infos);
    proof {
        law_newest_first_is_time_order(sorted@);
    }
    sorted
}


/// In a list ordered newest connection first, the first session is the
/// most recently connected one.
pub proof fn law_newest_first_head(s: Seq<SessionInfo>, i: int)
    requires
        newest_first(s),
        0 <= i < s.len(),
    ensures
        not_before(s[0].connected_at, s[i].connected_at),
{
    if i > 0 {
        assert(not_before(s[0].connected_at, s[i].connected_at));
    }
}

/// The nanoseconds since the Unix epoch of an instant whose nanoseconds
/// are past a whole second.
pub open spec fn epoch_nanos(t: UtcTime) -> int {
    t.secs * 1_000_000_000 + t.nanos
}

/// The order of sessions is the order of the instants they connected at: for
/// instants in canonical form (fewer than a second's nanoseconds), one is
/// not before another exactly when it lies no earlier on the time line; and
/// whatever the nanoseconds, a later second is never before an earlier one.
pub proof fn law_not_before_is_time_order(a: UtcTime, b: UtcTime)
    ensures
        a.nanos < 1_000_000_000 && b.nanos < 1_000_000_000 ==> (not_before(a, b) <==> epoch_nanos(a)
            >= epoch_nanos(b)),
        a.secs > b.secs ==> not_before(a, b) && !not_before(b, a),
        not_before(a, a),
        not_before(a, b) || not_before(b, a),
        not_before(a, b) && not_before(b, a) ==> a == b,
{
    if a.nanos < 1_000_000_000 && b.nanos < 1_000_000_000 {
        if a.secs > b.secs {
            assert(a.secs * 1_000_000_000 >= b.secs * 1_000_000_000 + 1_000_000_000) by (nonlinear_arith)
                requires
                    a.secs > b.secs,
            ;
        } else if a.secs < b.secs {
            assert(b.secs * 1_000_000_000 >= a.secs * 1_000_000_000 + 1_000_000_000) by (nonlinear_arith)
                requires
                    a.secs < b.secs,
            ;
        }
    }
}

/// In a list ordered newest connection first, of two sessions the one that
/// connected in a later second, or in the same second at a later
/// nanosecond, is listed first.
pub proof fn law_newest_first_is_time_order(s: Seq<SessionInfo>)
    requires
        newest_first(s),
    ensures
        forall|i: int, j: int|
            0 <= i < j < s.len() ==> (#[trigger] s[i]).connected_at.secs > (#[trigger] s[j]).connected_at.secs
                || (s[i].connected_at.secs == s[j].connected_at.secs && s[i].connected_at.nanos
                >= s[j].connected_at.nanos),
        forall|i: int, j: int|
            0 <= i < s.len() && 0 <= j < s.len() && (#[trigger] s[i]).connected_at.secs
                > (#[trigger] s[j]).connected_at.secs ==> i < j,
{
    assert forall|i: int, j: int| 0 <= i < j < s.len() implies (#[trigger] s[i]).connected_at.secs
        > (#[trigger] s[j]).connected_at.secs || (s[i].connected_at.secs == s[j].connected_at.secs
        && s[i].connected_at.nanos >= s[j].connected_at.nanos) by {
        assert(not_before(s[i].connected_at, s[j].connected_at));
    }
    assert forall|i: int, j: int|
        0 <= i < s.len() && 0 <= j < s.len() && (#[trigger] s[i]).connected_at.secs
            > (#[trigger] s[j]).connected_at.secs implies i < j by {
        if j < i {
            assert(not_before(s[j].connected_at, s[i].connected_at));
        }
    }
}

/// The address dialled names the host and the port, whatever the port (the
/// default one included): the trimmed host, a colon, then decimal digits
/// that read back as the port.
pub proof fn law_address_names_port(host: Seq<char>, port: u16)
    ensures
        ssh_address(host, port).len() > trim(host).len() + 1,
        ssh_address(host, port).take(trim(host).len() as int) == trim(host),
        ssh_address(host, port)[trim(host).len() as int] == ':',
        all_digits(ssh_address(host, port).skip(trim(host).len() as int + 1)),
        digits_value(ssh_address(host, port).skip(trim(host).len() as int + 1)) == port,
{
    let a = ssh_address(host, port);
    let h = trim(host);
    lemma_decimal_reads_back(port as nat);
    reveal_strlit(":");
    assert(a.take(h.len() as int) =~= h);
    assert(a.skip(h.len() as int + 1) =~= decimal(port as nat));
}

} // verus!
