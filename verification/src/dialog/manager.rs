//! Dialog manager for tracking active dialogs.
//!
//! Routes messages to the appropriate dialog and handles dialog lifecycle.
use crate::dialog::invite::{
    bye_step, is_new_uac, is_new_uas, opt_request, request_step, response_sent_step, response_step, same_dialog,
    Action, ActionView, Event, EventView, InviteDialog, TerminationReason,
};
use crate::dialog::state::{call_id_of, to_tag_of, uas_info_ready, DialogId, DialogState};
use crate::sip::message::{
    from_tag_of, is_lower_hex, uuid_simple, Method, RequestView, ResponseView, SipRequest, SipResponse,
};
use vstd::prelude::*;

verus! {

/// Handle to a dialog in the manager.
#[derive(Debug, Clone, Copy, PartialEq, Eq, Hash, Structural)]
pub struct DialogHandle(pub u64);

/// Output action from the dialog manager.
#[derive(Debug, Clone)]
pub enum ManagerAction {
    /// Send a request.
    SendRequest(SipRequest),
    /// Send a response.
    SendResponse(SipResponse),
    /// Dialog event.
    Event(DialogHandle, ManagerEvent),
}

/// Event from the dialog manager.
#[derive(Debug, Clone)]
pub enum ManagerEvent {
    /// New incoming INVITE - dialog created in early state.
    IncomingInvite(SipRequest),
    /// Dialog established.
    Established,
    /// Provisional response received.
    Provisional(SipResponse),
    /// Session progress with early media.
    SessionProgress(SipResponse),
    /// Re-INVITE received.
    ReInvite(SipRequest),
    /// BYE received.
    ByeReceived(SipRequest),
    /// Dialog terminated.
    Terminated(TerminationReason),
}

/// A manager event as plain values.
pub enum ManagerEventView {
    IncomingInvite(RequestView),
    Established,
    Provisional(ResponseView),
    SessionProgress(ResponseView),
    ReInvite(RequestView),
    ByeReceived(RequestView),
    Terminated(TerminationReason),
}

/// A manager action as plain values.
pub enum ManagerActionView {
    SendRequest(RequestView),
    SendResponse(ResponseView),
    Event(u64, ManagerEventView),
}

impl View for ManagerEvent {
    type V = ManagerEventView;

    open spec fn view(&self) -> ManagerEventView {
        match self {
            ManagerEvent::IncomingInvite(q) => ManagerEventView::IncomingInvite(q@),
            ManagerEvent::Established => ManagerEventView::Established,
            ManagerEvent::Provisional(p) => ManagerEventView::Provisional(p@),
            ManagerEvent::SessionProgress(p) => ManagerEventView::SessionProgress(p@),
            ManagerEvent::ReInvite(q) => ManagerEventView::ReInvite(q@),
            ManagerEvent::ByeReceived(q) => ManagerEventView::ByeReceived(q@),
            ManagerEvent::Terminated(t) => ManagerEventView::Terminated(*t),
        }
    }
}

impl View for ManagerAction {
    type V = ManagerActionView;

    open spec fn view(&self) -> ManagerActionView {
        match self {
            ManagerAction::SendRequest(q) => ManagerActionView::SendRequest(q@),
            ManagerAction::SendResponse(p) => ManagerActionView::SendResponse(p@),
            ManagerAction::Event(h, e) => ManagerActionView::Event(h.0, e@),
        }
    }
}

/// The views of a list of manager actions.
pub open spec fn manager_actions_view(v: Seq<ManagerAction>) -> Seq<ManagerActionView> {
    Seq::new(v.len(), |i: int| v[i]@)
}

/// A dialog's action as the manager reports it for the dialog `h`.
pub open spec fn lift(h: u64, a: ActionView) -> ManagerActionView {
    match a {
        ActionView::SendRequest(q) => ManagerActionView::SendRequest(q),
        ActionView::SendResponse(p) => ManagerActionView::SendResponse(p),
        ActionView::Event(e) => ManagerActionView::Event(
            h,
            match e {
                EventView::Established => ManagerEventView::Established,
                EventView::Provisional(p) => ManagerEventView::Provisional(p),
                EventView::ReInvite(q) => ManagerEventView::ReInvite(q),
                EventView::ByeReceived(q) => ManagerEventView::ByeReceived(q),
                EventView::Terminated(t) => ManagerEventView::Terminated(t),
                EventView::SessionProgress(p) => ManagerEventView::SessionProgress(p),
            },
        ),
    }
}

/// A dialog's actions as the manager reports them for the dialog `h`, in order.
pub open spec fn lift_all(h: u64, s: Seq<ActionView>) -> Seq<ManagerActionView> {
    Seq::new(s.len(), |i: int| lift(h, s[i]))
}

/// The map that a list of entries stands for, each key to the value beside it.
pub open spec fn keyed<K, V>(s: Seq<(K, V)>) -> Map<K, V> {
    Map::new(
        |k: K| exists|i: int| 0 <= i < s.len() && #[trigger] s[i].0 == k,
        |k: K| s[choose|i: int| 0 <= i < s.len() && #[trigger] s[i].0 == k].1,
    )
}

/// Whether no key occurs twice in a list of entries.
pub open spec fn distinct_keys<K, V>(s: Seq<(K, V)>) -> bool {
    forall|i: int, j: int| 0 <= i < s.len() && 0 <= j < s.len() && i != j ==> #[trigger] s[i].0 != #[trigger] s[j].0
}

proof fn lemma_keyed_at<K, V>(s: Seq<(K, V)>, i: int)
    requires
        distinct_keys(s),
        0 <= i < s.len(),
    ensures
        keyed(s).contains_key(s[i].0),
        keyed(s)[s[i].0] == s[i].1,
{
    let k = s[i].0;
    assert(0 <= i < s.len() && s[i].0 == k);
    let j = choose|j: int| 0 <= j < s.len() && #[trigger] s[j].0 == k;
    assert(j == i);
}

proof fn lemma_keyed_push<K, V>(s: Seq<(K, V)>, k: K, v: V)
    requires
        distinct_keys(s),
        !keyed(s).contains_key(k),
    ensures
        distinct_keys(s.push((k, v))),
        keyed(s.push((k, v))) == keyed(s).insert(k, v),
{
    let t = s.push((k, v));
    assert forall|i: int| 0 <= i < s.len() implies #[trigger] s[i].0 != k by {
        if s[i].0 == k {
            assert(keyed(s).contains_key(k));
        }
    }
    assert forall|i: int, j: int| 0 <= i < t.len() && 0 <= j < t.len() && i != j implies #[trigger] t[i].0
        != #[trigger] t[j].0 by {
        if i < s.len() && j < s.len() {
            assert(t[i] == s[i] && t[j] == s[j]);
        } else if i < s.len() {
            assert(t[i] == s[i]);
        } else {
            assert(t[j] == s[j]);
        }
    }
    lemma_keyed_at(t, s.len() as int);
    assert forall|x: K| #[trigger] keyed(t).contains_key(x) == keyed(s).insert(k, v).contains_key(x) by {
        if keyed(s).contains_key(x) {
            let i = choose|i: int| 0 <= i < s.len() && #[trigger] s[i].0 == x;
            assert(t[i].0 == x);
        }
        if keyed(t).contains_key(x) && x != k {
            let i = choose|i: int| 0 <= i < t.len() && #[trigger] t[i].0 == x;
            assert(i < s.len());
            assert(s[i].0 == x);
        }
    }
    assert forall|x: K| #[trigger] keyed(t).contains_key(x) && x != k implies keyed(t)[x] == keyed(s)[x] by {
        let i = choose|i: int| 0 <= i < t.len() && #[trigger] t[i].0 == x;
        assert(i < s.len());
        assert(t[i] == s[i]);
        lemma_keyed_at(t, i);
        lemma_keyed_at(s, i);
    }
    assert(keyed(t) =~= keyed(s).insert(k, v));
}

proof fn lemma_keyed_update<K, V>(s: Seq<(K, V)>, i: int, v: V)
    requires
        distinct_keys(s),
        0 <= i < s.len(),
    ensures
        distinct_keys(s.update(i, (s[i].0, v))),
        keyed(s.update(i, (s[i].0, v))) == keyed(s).insert(s[i].0, v),
{
    let k = s[i].0;
    let t = s.update(i, (k, v));
    assert forall|a: int, b: int| 0 <= a < t.len() && 0 <= b < t.len() && a != b implies #[trigger] t[a].0
        != #[trigger] t[b].0 by {
        assert(t[a].0 == s[a].0 && t[b].0 == s[b].0);
    }
    lemma_keyed_at(t, i);
    lemma_keyed_at(s, i);
    assert forall|x: K| #[trigger] keyed(t).contains_key(x) == keyed(s).insert(k, v).contains_key(x) by {
        if keyed(s).contains_key(x) {
            let a = choose|a: int| 0 <= a < s.len() && #[trigger] s[a].0 == x;
            assert(t[a].0 == x);
        }
        if keyed(t).contains_key(x) {
            let a = choose|a: int| 0 <= a < t.len() && #[trigger] t[a].0 == x;
            assert(s[a].0 == x);
        }
    }
    assert forall|x: K| #[trigger] keyed(t).contains_key(x) && x != k implies keyed(t)[x] == keyed(s)[x] by {
        let a = choose|a: int| 0 <= a < t.len() && #[trigger] t[a].0 == x;
        assert(a != i);
        assert(t[a] == s[a]);
        lemma_keyed_at(t, a);
        lemma_keyed_at(s, a);
    }
    assert(keyed(t) =~= keyed(s).insert(k, v));
}

proof fn lemma_keyed_remove<K, V>(s: Seq<(K, V)>, i: int)
    requires
        distinct_keys(s),
        0 <= i < s.len(),
    ensures
        distinct_keys(s.remove(i)),
        keyed(s.remove(i)) == keyed(s).remove(s[i].0),
{
    let k = s[i].0;
    let t = s.remove(i);
    assert forall|a: int| 0 <= a < t.len() implies #[trigger] t[a] == s[if a < i { a } else { a + 1 }] by {}
    assert forall|a: int, b: int| 0 <= a < t.len() && 0 <= b < t.len() && a != b implies #[trigger] t[a].0
        != #[trigger] t[b].0 by {
        assert(t[a] == s[if a < i { a } else { a + 1 }]);
        assert(t[b] == s[if b < i { b } else { b + 1 }]);
    }
    assert forall|x: K| #[trigger] keyed(t).contains_key(x) == keyed(s).remove(k).contains_key(x) by {
        if keyed(s).contains_key(x) && x != k {
            let a = choose|a: int| 0 <= a < s.len() && #[trigger] s[a].0 == x;
            assert(a != i);
            let b = if a < i { a } else { a - 1 };
            assert(t[b] == s[a]);
            assert(t[b].0 == x);
        }
        if keyed(t).contains_key(x) {
            let b = choose|b: int| 0 <= b < t.len() && #[trigger] t[b].0 == x;
            let a = if b < i { b } else { b + 1 };
            assert(t[b] == s[a]);
            assert(s[a].0 == x);
            assert(a != i);
        }
    }
    assert forall|x: K| #[trigger] keyed(t).contains_key(x) implies keyed(t)[x] == keyed(s)[x] by {
        let b = choose|b: int| 0 <= b < t.len() && #[trigger] t[b].0 == x;
        let a = if b < i { b } else { b + 1 };
        assert(t[b] == s[a]);
        lemma_keyed_at(t, b);
        lemma_keyed_at(s, a);
    }
    assert(keyed(t) =~= keyed(s).remove(k));
}

/// The key of a dialog identifier: its Call-ID, local tag and remote tag.
pub open spec fn id_key(d: DialogId) -> (Seq<char>, Seq<char>, Seq<char>) {
    (d.call_id@, d.local_tag@, d.remote_tag@)
}

/// The dialog that an incoming request names, seen from our side: its Call-ID, To tag (ours)
/// and From tag (theirs); none when one of them cannot be read.
pub open spec fn request_key(q: RequestView) -> Option<(Seq<char>, Seq<char>, Seq<char>)> {
    match (call_id_of(q.headers), from_tag_of(q.headers), to_tag_of(q.headers)) {
        (Some(c), Some(f), Some(t)) => Some((c, t, f)),
        _ => None,
    }
}

/// Whether the map `nm` is `om` after the dialog `h` made a step to `d1` and its actions were
/// collected.
pub open spec fn stepped(om: Map<u64, InviteDialog>, nm: Map<u64, InviteDialog>, h: u64, d1: InviteDialog) -> bool {
    &&& nm.dom() == om.dom()
    &&& forall|k: u64| #[trigger] om.contains_key(k) && k != h ==> nm[k] == om[k]
    &&& same_dialog(nm[h], d1)
    &&& nm[h].spec_actions() == Seq::<ActionView>::empty()
}

/// Dialog manager (Sans-IO).
#[derive(Debug)]
pub struct DialogManager {
    /// Next handle ID.
    next_handle: u64,
    /// Active dialogs.
    dialogs: Vec<(DialogHandle, InviteDialog)>,
    /// Dialog ID to handle mapping.
    id_to_handle: Vec<(DialogId, DialogHandle)>,
    /// Pending (early) dialogs by Call-ID + From-tag (for matching responses).
    pending_uac: Vec<(String, String, DialogHandle)>,
    /// Pending actions.
    actions: Vec<ManagerAction>,
    /// Local contact URI.
    local_contact: String,
}

/// The dialogs of a list, keyed by handle.
pub open spec fn dialog_entries(v: Seq<(DialogHandle, InviteDialog)>) -> Seq<(u64, InviteDialog)> {
    Seq::new(v.len(), |i: int| (v[i].0.0, v[i].1))
}

/// The handles of a list, keyed by dialog identifier.
pub open spec fn id_entries(v: Seq<(DialogId, DialogHandle)>) -> Seq<((Seq<char>, Seq<char>, Seq<char>), u64)> {
    Seq::new(v.len(), |i: int| (id_key(v[i].0), v[i].1.0))
}

/// The handles of a list, keyed by Call-ID and From tag.
pub open spec fn pending_entries(v: Seq<(String, String, DialogHandle)>) -> Seq<((Seq<char>, Seq<char>), u64)> {
    Seq::new(v.len(), |i: int| ((v[i].0@, v[i].1@), v[i].2.0))
}


/// Whether nothing but the pending actions and the dialogs differs between `o` and `f`.
pub open spec fn tables_same(o: DialogManager, f: DialogManager) -> bool {
    &&& f.spec_next() == o.spec_next()
    &&& f.spec_ids() == o.spec_ids()
    &&& f.spec_pending() == o.spec_pending()
}

/// Whether `f` is `o` unchanged, as far as the manager's views go.
pub open spec fn unchanged(o: DialogManager, f: DialogManager) -> bool {
    &&& tables_same(o, f)
    &&& f.spec_dialogs() == o.spec_dialogs()
    &&& f.spec_actions() == o.spec_actions()
}

/// Handling an incoming request (see `DialogManager::handle_request`): `o` before, `f` after,
/// `r` the handle returned.
pub open spec fn request_handled(o: DialogManager, q: RequestView, f: DialogManager, r: Option<DialogHandle>) -> bool {
    let key = request_key(q);
    if key is Some && o.spec_ids().contains_key(key->0) {
        let h = o.spec_ids()[key->0];
        &&& r == Some(DialogHandle(h))
        &&& tables_same(o, f)
        &&& if o.spec_dialogs().contains_key(h) {
            exists|d1: InviteDialog| #[trigger]
                request_step(o.spec_dialogs()[h], q, d1) && stepped(o.spec_dialogs(), f.spec_dialogs(), h, d1)
                    && f.spec_actions() == o.spec_actions() + lift_all(h, d1.spec_actions())
        } else {
            f.spec_dialogs() == o.spec_dialogs() && f.spec_actions() == o.spec_actions()
        }
    } else if q.method == Method::Invite {
        let h = o.spec_next();
        &&& f.spec_next() == h + 1
        &&& f.spec_pending() == o.spec_pending()
        &&& if uas_info_ready(q) {
            &&& r == Some(DialogHandle(h))
            &&& f.spec_dialogs().contains_key(h)
            &&& f.spec_dialogs() == o.spec_dialogs().insert(h, f.spec_dialogs()[h])
            &&& exists|tag: Seq<char>| #[trigger]
                is_new_uas(f.spec_dialogs()[h], q, tag) && tag.len() == 32 && is_lower_hex(tag)
            &&& f.spec_ids() == o.spec_ids().insert(id_key(f.spec_dialogs()[h].spec_info().id), h)
            &&& f.spec_actions() == o.spec_actions().push(
                ManagerActionView::Event(h, ManagerEventView::IncomingInvite(q)),
            )
        } else {
            &&& r is None
            &&& f.spec_dialogs() == o.spec_dialogs()
            &&& f.spec_ids() == o.spec_ids()
            &&& f.spec_actions() == o.spec_actions()
        }
    } else {
        r is None && unchanged(o, f)
    }
}

/// The dialog that a response belongs to: the early UAC dialog of its Call-ID and From tag,
/// or else the dialog of its Call-ID, From tag and To tag.
pub open spec fn response_target(o: DialogManager, p: ResponseView) -> Option<u64> {
    match (call_id_of(p.headers), from_tag_of(p.headers)) {
        (Some(c), Some(t)) => if o.spec_pending().contains_key((c, t)) {
            Some(o.spec_pending()[(c, t)])
        } else {
            match to_tag_of(p.headers) {
                Some(tt) => if o.spec_ids().contains_key((c, t, tt)) {
                    Some(o.spec_ids()[(c, t, tt)])
                } else {
                    None
                },
                None => None,
            }
        },
        _ => None,
    }
}

/// Handling a response (see `DialogManager::handle_response`).
pub open spec fn response_handled(o: DialogManager, p: ResponseView, f: DialogManager, r: Option<DialogHandle>) -> bool {
    match response_target(o, p) {
        None => r is None && unchanged(o, f),
        Some(h) => {
            let c = call_id_of(p.headers)->0;
            let t = from_tag_of(p.headers)->0;
            &&& r == Some(DialogHandle(h))
            &&& f.spec_next() == o.spec_next()
            &&& if o.spec_dialogs().contains_key(h) {
                exists|d1: InviteDialog| #[trigger]
                    response_step(o.spec_dialogs()[h], p, d1) && stepped(o.spec_dialogs(), f.spec_dialogs(), h, d1)
                        && f.spec_actions() == o.spec_actions() + lift_all(h, d1.spec_actions()) && if o.spec_dialogs()[h].spec_info().state
                        == DialogState::Early && d1.spec_info().state == DialogState::Confirmed {
                        f.spec_ids() == o.spec_ids().insert(id_key(d1.spec_info().id), h) && f.spec_pending()
                            == o.spec_pending().remove((c, t))
                    } else {
                        f.spec_ids() == o.spec_ids() && f.spec_pending() == o.spec_pending()
                    }
            } else {
                unchanged(o, f)
            }
        },
    }
}

/// Sending a response on the dialog `h` (see `DialogManager::send_response`).
pub open spec fn response_sent(o: DialogManager, h: u64, p: ResponseView, f: DialogManager) -> bool {
    if o.spec_dialogs().contains_key(h) {
        &&& f.spec_next() == o.spec_next()
        &&& f.spec_pending() == o.spec_pending()
        &&& exists|d1: InviteDialog| #[trigger]
            response_sent_step(o.spec_dialogs()[h], p, d1) && stepped(o.spec_dialogs(), f.spec_dialogs(), h, d1)
                && f.spec_actions() == o.spec_actions() + lift_all(h, d1.spec_actions()) && if o.spec_dialogs()[h].spec_info().state
                == DialogState::Early && d1.spec_info().state == DialogState::Confirmed {
                f.spec_ids() == o.spec_ids().insert(id_key(d1.spec_info().id), h)
            } else {
                f.spec_ids() == o.spec_ids()
            }
    } else {
        unchanged(o, f)
    }
}

/// Sending a BYE on the dialog `h` (see `DialogManager::send_bye`).
pub open spec fn bye_sent(o: DialogManager, h: u64, f: DialogManager, r: Option<RequestView>) -> bool {
    if o.spec_dialogs().contains_key(h) {
        &&& tables_same(o, f)
        &&& exists|d1: InviteDialog| #[trigger]
            bye_step(o.spec_dialogs()[h], d1, r) && stepped(o.spec_dialogs(), f.spec_dialogs(), h, d1)
                && f.spec_actions() == o.spec_actions() + lift_all(h, d1.spec_actions())
    } else {
        r is None && unchanged(o, f)
    }
}

/// Whether a list of dialogs has no handle twice, every handle below `next`, and no
/// uncollected actions.
pub open spec fn dialogs_ok(v: Seq<(DialogHandle, InviteDialog)>, next: u64) -> bool {
    &&& distinct_keys(dialog_entries(v))
    &&& forall|i: int| 0 <= i < v.len() ==> (#[trigger] v[i]).0.0 < next
    &&& forall|i: int| 0 <= i < v.len() ==> (#[trigger] v[i]).1.spec_actions() == Seq::<ActionView>::empty()
}


/// The identifier keys of the terminated dialogs of `m`.
pub open spec fn terminated_ids(m: Map<u64, InviteDialog>) -> Set<(Seq<char>, Seq<char>, Seq<char>)> {
    Set::new(
        |k: (Seq<char>, Seq<char>, Seq<char>)|
            exists|h: u64|
                #![trigger m[h]]
                m.contains_key(h) && m[h].spec_info().state == DialogState::Terminated && id_key(m[h].spec_info().id)
                    == k,
    )
}

/// The identifier keys of a list of identifiers.
pub open spec fn ids_of(v: Seq<DialogId>) -> Set<(Seq<char>, Seq<char>, Seq<char>)> {
    Set::new(|k: (Seq<char>, Seq<char>, Seq<char>)| exists|j: int| 0 <= j < v.len() && #[trigger] id_key(v[j]) == k)
}

proof fn lemma_reinsert(v: Seq<(DialogHandle, InviteDialog)>, i: int, x: (DialogHandle, InviteDialog))
    requires
        0 <= i < v.len(),
        x.0 == v[i].0,
    ensures
        dialog_entries(v.remove(i).insert(i, x)) == dialog_entries(v).update(i, (x.0.0, x.1)),
        v.remove(i).insert(i, x) == v.update(i, x),
{
    assert(v.remove(i).insert(i, x) =~= v.update(i, x));
    assert(dialog_entries(v.update(i, x)) =~= dialog_entries(v).update(i, (x.0.0, x.1)));
}

impl DialogManager {
    /// The dialogs, by handle.
    pub closed spec fn spec_dialogs(&self) -> Map<u64, InviteDialog> {
        keyed(dialog_entries(self.dialogs@))
    }

    /// The confirmed (and UAS) dialogs' handles, by dialog identifier.
    pub closed spec fn spec_ids(&self) -> Map<(Seq<char>, Seq<char>, Seq<char>), u64> {
        keyed(id_entries(self.id_to_handle@))
    }

    /// The early UAC dialogs' handles, by Call-ID and From tag.
    pub closed spec fn spec_pending(&self) -> Map<(Seq<char>, Seq<char>), u64> {
        keyed(pending_entries(self.pending_uac@))
    }

    /// The next handle to hand out.
    pub closed spec fn spec_next(&self) -> u64 {
        self.next_handle
    }

    /// The local contact URI.
    pub closed spec fn spec_contact(&self) -> Seq<char> {
        self.local_contact@
    }

    /// The pending actions, oldest first.
    pub closed spec fn spec_actions(&self) -> Seq<ManagerActionView> {
        manager_actions_view(self.actions@)
    }

    /// The manager's invariant: no key twice in a table, every handle in use below the next
    /// one, and no dialog with actions that the manager has not collected.
    pub closed spec fn wf(&self) -> bool {
        &&& dialogs_ok(self.dialogs@, self.next_handle)
        &&& distinct_keys(id_entries(self.id_to_handle@))
        &&& distinct_keys(pending_entries(self.pending_uac@))
    }

    /// Create a new dialog manager.
    pub fn new(local_contact: &str) -> (m: Self)
        ensures
            m.wf(),
            m.spec_next() == 1,
            m.spec_dialogs() == Map::<u64, InviteDialog>::empty(),
            m.spec_ids() == Map::<(Seq<char>, Seq<char>, Seq<char>), u64>::empty(),
            m.spec_pending() == Map::<(Seq<char>, Seq<char>), u64>::empty(),
            m.spec_actions() == Seq::<ManagerActionView>::empty(),
            m.spec_contact() == local_contact@,
    {
        let m = DialogManager {
            next_handle: 1,
            dialogs: Vec::new(),
            id_to_handle: Vec::new(),
            pending_uac: Vec::new(),
            actions: Vec::new(),
            local_contact: local_contact.to_string(),
        };
        assert(m.spec_dialogs() =~= Map::<u64, InviteDialog>::empty());
        assert(m.spec_ids() =~= Map::<(Seq<char>, Seq<char>, Seq<char>), u64>::empty());
        assert(m.spec_pending() =~= Map::<(Seq<char>, Seq<char>), u64>::empty());
        assert(m.spec_actions() =~= Seq::<ManagerActionView>::empty());
        m
    }

    /// Hand out the next handle.
    fn alloc_handle(&mut self) -> (h: DialogHandle)
        requires
            old(self).wf(),
            old(self).spec_next() < u64::MAX,
        ensures
            final(self).wf(),
            h.0 == old(self).spec_next(),
            !final(self).spec_dialogs().contains_key(h.0),
            final(self).spec_next() == old(self).spec_next() + 1,
            final(self).dialogs@ == old(self).dialogs@,
            final(self).id_to_handle@ == old(self).id_to_handle@,
            final(self).pending_uac@ == old(self).pending_uac@,
            final(self).actions@ == old(self).actions@,
            final(self).local_contact@ == old(self).local_contact@,
    {
        let h = DialogHandle(self.next_handle);
        self.next_handle = self.next_handle + 1;
        proof {
            let s = dialog_entries(self.dialogs@);
            if keyed(s).contains_key(h.0) {
                let i = choose|i: int| 0 <= i < s.len() && #[trigger] s[i].0 == h.0;
                assert(self.dialogs@[i].0.0 < h.0);
            }
        }
        h
    }

    /// Map the identifier of `id` to `h`, in place of any handle it had.
    fn set_id(&mut self, id: DialogId, h: DialogHandle)
        requires
            old(self).wf(),
        ensures
            final(self).wf(),
            final(self).spec_ids() == old(self).spec_ids().insert(id_key(id), h.0),
            final(self).dialogs@ == old(self).dialogs@,
            final(self).pending_uac@ == old(self).pending_uac@,
            final(self).actions@ == old(self).actions@,
            final(self).next_handle == old(self).next_handle,
            final(self).local_contact@ == old(self).local_contact@,
    {
        let ghost s = id_entries(self.id_to_handle@);
        match self.find_id(id.call_id.as_str(), id.local_tag.as_str(), id.remote_tag.as_str()) {
            Some(i) => {
                proof {
                    lemma_keyed_update(s, i as int, h.0);
                }
                self.id_to_handle.set(i, (id, h));
                assert(id_entries(self.id_to_handle@) =~= s.update(i as int, (s[i as int].0, h.0)));
            },
            None => {
                proof {
                    lemma_keyed_push(s, id_key(id), h.0);
                }
                self.id_to_handle.push((id, h));
                assert(id_entries(self.id_to_handle@) =~= s.push((id_key(id), h.0)));
            },
        }
    }

    /// Map `(call_id, from_tag)` to `h`, in place of any handle it had.
    fn set_pending(&mut self, call_id: String, from_tag: String, h: DialogHandle)
        requires
            old(self).wf(),
        ensures
            final(self).wf(),
            final(self).spec_pending() == old(self).spec_pending().insert((call_id@, from_tag@), h.0),
            final(self).dialogs@ == old(self).dialogs@,
            final(self).id_to_handle@ == old(self).id_to_handle@,
            final(self).actions@ == old(self).actions@,
            final(self).next_handle == old(self).next_handle,
            final(self).local_contact@ == old(self).local_contact@,
    {
        let ghost s = pending_entries(self.pending_uac@);
        let ghost k = (call_id@, from_tag@);
        match self.find_pending(call_id.as_str(), from_tag.as_str()) {
            Some(i) => {
                proof {
                    lemma_keyed_update(s, i as int, h.0);
                }
                self.pending_uac.set(i, (call_id, from_tag, h));
                assert(pending_entries(self.pending_uac@) =~= s.update(i as int, (s[i as int].0, h.0)));
            },
            None => {
                proof {
                    lemma_keyed_push(s, k, h.0);
                }
                self.pending_uac.push((call_id, from_tag, h));
                assert(pending_entries(self.pending_uac@) =~= s.push((k, h.0)));
            },
        }
    }

    /// Forget the pending entry for `(call_id, from_tag)`, if any.
    fn remove_pending(&mut self, call_id: &str, from_tag: &str)
        requires
            old(self).wf(),
        ensures
            final(self).wf(),
            final(self).spec_pending() == old(self).spec_pending().remove((call_id@, from_tag@)),
            final(self).dialogs@ == old(self).dialogs@,
            final(self).id_to_handle@ == old(self).id_to_handle@,
            final(self).actions@ == old(self).actions@,
            final(self).next_handle == old(self).next_handle,
            final(self).local_contact@ == old(self).local_contact@,
    {
        let ghost s = pending_entries(self.pending_uac@);
        match self.find_pending(call_id, from_tag) {
            Some(i) => {
                proof {
                    lemma_keyed_remove(s, i as int);
                }
                let _ = self.pending_uac.remove(i);
                assert(pending_entries(self.pending_uac@) =~= s.remove(i as int));
            },
            None => {
                assert(keyed(s).remove((call_id@, from_tag@)) =~= keyed(s));
            },
        }
    }

    /// Move a dialog's pending actions to the manager's, reported for the handle `h`.
    fn collect(&mut self, h: DialogHandle, d: &mut InviteDialog)
        ensures
            final(d).spec_actions() == Seq::<ActionView>::empty(),
            same_dialog(*final(d), *old(d)),
            final(self).spec_actions() == old(self).spec_actions() + lift_all(h.0, old(d).spec_actions()),
            final(self).dialogs@ == old(self).dialogs@,
            final(self).id_to_handle@ == old(self).id_to_handle@,
            final(self).pending_uac@ == old(self).pending_uac@,
            final(self).next_handle == old(self).next_handle,
            final(self).local_contact@ == old(self).local_contact@,
    {
        let mut acts = d.poll_actions();
        let ghost orig = crate::dialog::invite::actions_view(acts@);
        let n0 = acts.len();
        assert(orig.len() == n0);
        let ghost base = self.spec_actions();
        let ghost dialogs0 = self.dialogs@;
        let ghost ids0 = self.id_to_handle@;
        let ghost pending0 = self.pending_uac@;
        let ghost contact0 = self.local_contact@;
        let ghost next0 = self.next_handle;
        let mut k: usize = 0;
        while acts.len() > 0
            invariant
                crate::dialog::invite::actions_view(acts@) == orig.skip(k as int),
                k + acts@.len() == orig.len(),
                orig.len() == n0,
                self.spec_actions() == base + lift_all(h.0, orig.take(k as int)),
                self.dialogs@ == dialogs0,
                self.id_to_handle@ == ids0,
                self.pending_uac@ == pending0,
                self.local_contact@ == contact0,
                self.next_handle == next0,
            decreases acts.len(),
        {
            let ghost before = self.spec_actions();
            let ghost prev = acts@;
            assert(crate::dialog::invite::actions_view(prev)[0] == orig.skip(k as int)[0]);
            let a = acts.remove(0);
            assert(a@ == orig[k as int]);
            let m = match a {
                Action::SendRequest(q) => ManagerAction::SendRequest(q),
                Action::SendResponse(p) => ManagerAction::SendResponse(p),
                Action::Event(e) => ManagerAction::Event(
                    h,
                    match e {
                        Event::Established => ManagerEvent::Established,
                        Event::Provisional(p) => ManagerEvent::Provisional(p),
                        Event::SessionProgress(p) => ManagerEvent::SessionProgress(p),
                        Event::ReInvite(q) => ManagerEvent::ReInvite(q),
                        Event::ByeReceived(q) => ManagerEvent::ByeReceived(q),
                        Event::Terminated(t) => ManagerEvent::Terminated(t),
                    },
                ),
            };
            assert(m@ == lift(h.0, orig[k as int]));
            self.actions.push(m);
            assert(self.spec_actions() =~= before.push(m@));
            assert(orig.take(k + 1) =~= orig.take(k as int).push(orig[k as int]));
            assert(lift_all(h.0, orig.take(k + 1)) =~= lift_all(h.0, orig.take(k as int)).push(lift(h.0, orig[k as int])));
            assert(crate::dialog::invite::actions_view(acts@) =~= crate::dialog::invite::actions_view(prev).skip(1));
            assert(crate::dialog::invite::actions_view(acts@) =~= orig.skip(k + 1));
            k += 1;
        }
        assert(orig.take(k as int) =~= orig);
    }

    /// Take out the dialog at position `i`.
    fn take_dialog(&mut self, i: usize) -> (x: (DialogHandle, InviteDialog))
        requires
            old(self).wf(),
            i < old(self).dialogs@.len(),
        ensures
            x == old(self).dialogs@[i as int],
            final(self).dialogs@ == old(self).dialogs@.remove(i as int),
            final(self).id_to_handle@ == old(self).id_to_handle@,
            final(self).pending_uac@ == old(self).pending_uac@,
            final(self).actions@ == old(self).actions@,
            final(self).next_handle == old(self).next_handle,
            final(self).local_contact@ == old(self).local_contact@,
    {
        self.dialogs.remove(i)
    }

    /// Put a dialog back at position `i`, from which it was taken out of `full`.
    fn put_dialog(&mut self, i: usize, x: (DialogHandle, InviteDialog), Ghost(full): Ghost<
        Seq<(DialogHandle, InviteDialog)>,
    >)
        requires
            dialogs_ok(full, old(self).next_handle),
            distinct_keys(id_entries(old(self).id_to_handle@)),
            distinct_keys(pending_entries(old(self).pending_uac@)),
            i < full.len(),
            old(self).dialogs@ == full.remove(i as int),
            x.0 == full[i as int].0,
            x.1.spec_actions() == Seq::<ActionView>::empty(),
        ensures
            final(self).wf(),
            final(self).spec_dialogs() == keyed(dialog_entries(full)).insert(x.0.0, x.1),
            keyed(dialog_entries(full)).contains_key(x.0.0),
            final(self).id_to_handle@ == old(self).id_to_handle@,
            final(self).pending_uac@ == old(self).pending_uac@,
            final(self).actions@ == old(self).actions@,
            final(self).next_handle == old(self).next_handle,
            final(self).local_contact@ == old(self).local_contact@,
    {
        self.dialogs.insert(i, x);
        proof {
            lemma_reinsert(full, i as int, x);
            lemma_keyed_update(dialog_entries(full), i as int, x.1);
            lemma_keyed_at(dialog_entries(full), i as int);
            assert forall|j: int| 0 <= j < self.dialogs@.len() implies (#[trigger] self.dialogs@[j]).0.0
                < self.next_handle && self.dialogs@[j].1.spec_actions() == Seq::<ActionView>::empty() by {
                if j != i {
                    assert(self.dialogs@[j] == full[j]);
                }
            }
        }
    }

    /// Add a dialog under a handle not in use.
    fn insert_dialog(&mut self, h: DialogHandle, d: InviteDialog)
        requires
            old(self).wf(),
            !old(self).spec_dialogs().contains_key(h.0),
            h.0 < old(self).next_handle,
            d.spec_actions() == Seq::<ActionView>::empty(),
        ensures
            final(self).wf(),
            final(self).spec_dialogs() == old(self).spec_dialogs().insert(h.0, d),
            final(self).id_to_handle@ == old(self).id_to_handle@,
            final(self).pending_uac@ == old(self).pending_uac@,
            final(self).actions@ == old(self).actions@,
            final(self).next_handle == old(self).next_handle,
            final(self).local_contact@ == old(self).local_contact@,
    {
        let ghost s = dialog_entries(self.dialogs@);
        proof {
            lemma_keyed_push(s, h.0, d);
        }
        self.dialogs.push((h, d));
        assert(dialog_entries(self.dialogs@) =~= s.push((h.0, d)));
        assert forall|j: int| 0 <= j < self.dialogs@.len() implies (#[trigger] self.dialogs@[j]).0.0
            < self.next_handle && self.dialogs@[j].1.spec_actions() == Seq::<ActionView>::empty() by {
            if j < self.dialogs@.len() - 1 {
                assert(self.dialogs@[j] == old(self).dialogs@[j]);
            }
        }
    }

    /// Create a new outgoing dialog (UAC) for an INVITE: a handle is taken and, when the
    /// INVITE's Call-ID and From tag can be read, the dialog is kept under it and awaits its
    /// responses by that Call-ID and From tag. None for a request that is not an INVITE (and
    /// nothing changes), or when the Call-ID or From tag cannot be read.
    pub fn create_dialog(&mut self, invite: SipRequest) -> (r: Option<DialogHandle>)
        requires
            old(self).wf(),
            invite@.method == Method::Invite ==> old(self).spec_next() < u64::MAX,
        ensures
            final(self).wf(),
            final(self).spec_contact() == old(self).spec_contact(),
            invite@.method != Method::Invite ==> r is None && unchanged(*old(self), *final(self)),
            invite@.method == Method::Invite ==> {
                let h = old(self).spec_next();
                &&& final(self).spec_next() == h + 1
                &&& final(self).spec_ids() == old(self).spec_ids()
                &&& final(self).spec_actions() == old(self).spec_actions()
                &&& match (call_id_of(invite@.headers), from_tag_of(invite@.headers)) {
                    (Some(c), Some(t)) => {
                        &&& r == Some(DialogHandle(h))
                        &&& final(self).spec_pending() == old(self).spec_pending().insert((c, t), h)
                        &&& final(self).spec_dialogs().contains_key(h)
                        &&& final(self).spec_dialogs() == old(self).spec_dialogs().insert(h, final(self).spec_dialogs()[h])
                        &&& is_new_uac(final(self).spec_dialogs()[h], invite@)
                    },
                    _ => {
                        &&& r is None
                        &&& final(self).spec_pending() == old(self).spec_pending()
                        &&& final(self).spec_dialogs() == old(self).spec_dialogs()
                    },
                }
            },
    {
        if invite.method() != Method::Invite {
            return None;
        }
        let handle = self.alloc_handle();
        let copy = invite.clone();
        let dialog = InviteDialog::new_uac(copy);
        let call_id = match invite.call_id() {
            Ok(c) => c,
            Err(_) => return None,
        };
        let from_tag = match invite.from_tag() {
            Ok(t) => t,
            Err(_) => return None,
        };
        self.set_pending(call_id, from_tag, handle);
        self.insert_dialog(handle, dialog);
        Some(handle)
    }

    /// The handle of the dialog an incoming request names, if we know it.
    fn find_dialog_for_request(&self, request: &SipRequest) -> (r: Option<DialogHandle>)
        requires
            self.wf(),
        ensures
            match request_key(request@) {
                Some(k) => if self.spec_ids().contains_key(k) {
                    r == Some(DialogHandle(self.spec_ids()[k]))
                } else {
                    r is None
                },
                None => r is None,
            },
    {
        let call_id = match request.call_id() {
            Ok(c) => c,
            Err(_) => return None,
        };
        let from_tag = match request.from_tag() {
            Ok(t) => t,
            Err(_) => return None,
        };
        let to_tag = match request.to_tag() {
            Some(t) => t,
            None => return None,
        };
        match self.find_id(call_id.as_str(), to_tag.as_str(), from_tag.as_str()) {
            Some(i) => Some(self.id_to_handle[i].1),
            None => None,
        }
    }

    /// Create a UAS dialog for a new incoming INVITE, with a fresh random local tag.
    fn create_uas_dialog(&mut self, request: SipRequest) -> (r: Option<DialogHandle>)
        requires
            old(self).wf(),
            old(self).spec_next() < u64::MAX,
        ensures
            final(self).wf(),
            final(self).spec_contact() == old(self).spec_contact(),
            ({
                let o = *old(self);
                let f = *final(self);
                let q = request@;
                let h = o.spec_next();
                &&& f.spec_next() == h + 1
                &&& f.spec_pending() == o.spec_pending()
                &&& if uas_info_ready(q) {
                    &&& r == Some(DialogHandle(h))
                    &&& f.spec_dialogs().contains_key(h)
                    &&& f.spec_dialogs() == o.spec_dialogs().insert(h, f.spec_dialogs()[h])
                    &&& exists|tag: Seq<char>| #[trigger]
                        is_new_uas(f.spec_dialogs()[h], q, tag) && tag.len() == 32 && is_lower_hex(tag)
                    &&& f.spec_ids() == o.spec_ids().insert(id_key(f.spec_dialogs()[h].spec_info().id), h)
                    &&& f.spec_actions() == o.spec_actions().push(
                        ManagerActionView::Event(h, ManagerEventView::IncomingInvite(q)),
                    )
                } else {
                    &&& r is None
                    &&& f.spec_dialogs() == o.spec_dialogs()
                    &&& f.spec_ids() == o.spec_ids()
                    &&& f.spec_actions() == o.spec_actions()
                }
            }),
    {
        let local_tag = uuid_simple();
        let handle = self.alloc_handle();
        let copy = request.clone();
        let dialog = match InviteDialog::new_uas(copy, local_tag.as_str(), self.local_contact.as_str()) {
            Some(d) => d,
            None => return None,
        };
        let id = dialog.id().clone();
        self.insert_dialog(handle, dialog);
        self.set_id(id, handle);
        let ghost before = self.spec_actions();
        self.actions.push(ManagerAction::Event(handle, ManagerEvent::IncomingInvite(request)));
        assert(self.spec_actions() =~= before.push(
            ManagerActionView::Event(handle.0, ManagerEventView::IncomingInvite(request@)),
        ));
        assert(is_new_uas(self.spec_dialogs()[handle.0], request@, local_tag@));
        Some(handle)
    }

    /// Handle an incoming request: a request for a dialog we know goes to that dialog, whose
    /// actions are collected; a new INVITE creates a UAS dialog (see `request_handled`).
    /// Returns the dialog's handle, or none.
    pub fn handle_request(&mut self, request: SipRequest) -> (r: Option<DialogHandle>)
        requires
            old(self).wf(),
            request@.method == Method::Invite ==> old(self).spec_next() < u64::MAX,
        ensures
            final(self).wf(),
            final(self).spec_contact() == old(self).spec_contact(),
            request_handled(*old(self), request@, *final(self), r),
    {
        match self.find_dialog_for_request(&request) {
            Some(handle) => {
                match self.find_dialog(handle.0) {
                    Some(i) => {
                        let ghost full = self.dialogs@;
                        let (h, mut d) = self.take_dialog(i);
                        let ghost q = request@;
                        d.handle_request(request);
                        let ghost d1 = d;
                        self.collect(h, &mut d);
                        self.put_dialog(i, (h, d), Ghost(full));
                        proof {
                            let om = old(self).spec_dialogs();
                            let nm = self.spec_dialogs();
                            assert(nm.dom() =~= om.dom());
                            assert(stepped(om, nm, handle.0, d1));
                            assert(request_step(om[handle.0], q, d1) && stepped(om, nm, handle.0, d1)
                                && self.spec_actions() == old(self).spec_actions() + lift_all(handle.0, d1.spec_actions()));
                        }
                    },
                    None => {},
                }
                return Some(handle);
            },
            None => {},
        }
        if request.method() == Method::Invite {
            return self.create_uas_dialog(request);
        }
        None
    }

    /// Handle an incoming response (for UAC dialogs): it goes to the early dialog of its
    /// Call-ID and From tag, or else to the dialog it names; when it confirms an early
    /// dialog, the dialog is known by its identifier from then on (see `response_handled`).
    /// Returns the dialog's handle, or none.
    pub fn handle_response(&mut self, response: SipResponse) -> (r: Option<DialogHandle>)
        requires
            old(self).wf(),
        ensures
            final(self).wf(),
            final(self).spec_contact() == old(self).spec_contact(),
            response_handled(*old(self), response@, *final(self), r),
    {
        let call_id = match response.call_id() {
            Ok(c) => c,
            Err(_) => return None,
        };
        let from_tag = match response.from_tag() {
            Ok(t) => t,
            Err(_) => return None,
        };
        let to_tag = response.to_tag();
        let handle = match self.find_pending(call_id.as_str(), from_tag.as_str()) {
            Some(i) => self.pending_uac[i].2,
            None => match to_tag {
                Some(t) => match self.find_id(call_id.as_str(), from_tag.as_str(), t.as_str()) {
                    Some(j) => self.id_to_handle[j].1,
                    None => return None,
                },
                None => return None,
            },
        };
        match self.find_dialog(handle.0) {
            Some(i) => {
                let ghost full = self.dialogs@;
                let ghost p = response@;
                let (h, mut d) = self.take_dialog(i);
                let old_state = d.state();
                d.handle_response(response);
                let new_state = d.state();
                let ghost d1 = d;
                let confirmed = old_state == DialogState::Early && new_state == DialogState::Confirmed;
                let id = if confirmed {
                    Some(d.id().clone())
                } else {
                    None
                };
                self.collect(h, &mut d);
                self.put_dialog(i, (h, d), Ghost(full));
                match id {
                    Some(id) => {
                        self.set_id(id, h);
                        self.remove_pending(call_id.as_str(), from_tag.as_str());
                    },
                    None => {},
                }
                proof {
                    let om = old(self).spec_dialogs();
                    let nm = self.spec_dialogs();
                    assert(nm.dom() =~= om.dom());
                    assert(stepped(om, nm, handle.0, d1));
                    assert(response_step(om[handle.0], p, d1) && stepped(om, nm, handle.0, d1)
                        && self.spec_actions() == old(self).spec_actions() + lift_all(handle.0, d1.spec_actions()));
                }
            },
            None => {},
        }
        Some(handle)
    }

    /// Send a response on a dialog (UAS); when it confirms an early dialog, the dialog is known
    /// by its identifier from then on (see `response_sent`). Nothing happens for an unknown
    /// handle.
    pub fn send_response(&mut self, handle: DialogHandle, response: SipResponse)
        requires
            old(self).wf(),
        ensures
            final(self).wf(),
            final(self).spec_contact() == old(self).spec_contact(),
            response_sent(*old(self), handle.0, response@, *final(self)),
    {
        match self.find_dialog(handle.0) {
            Some(i) => {
                let ghost full = self.dialogs@;
                let ghost p = response@;
                let (h, mut d) = self.take_dialog(i);
                let old_state = d.state();
                d.send_response(response);
                let new_state = d.state();
                let ghost d1 = d;
                let id = if old_state == DialogState::Early && new_state == DialogState::Confirmed {
                    Some(d.id().clone())
                } else {
                    None
                };
                self.collect(h, &mut d);
                self.put_dialog(i, (h, d), Ghost(full));
                match id {
                    Some(id) => {
                        self.set_id(id, h);
                    },
                    None => {},
                }
                proof {
                    let om = old(self).spec_dialogs();
                    let nm = self.spec_dialogs();
                    assert(nm.dom() =~= om.dom());
                    assert(stepped(om, nm, handle.0, d1));
                    assert(response_sent_step(om[handle.0], p, d1) && stepped(om, nm, handle.0, d1)
                        && self.spec_actions() == old(self).spec_actions() + lift_all(handle.0, d1.spec_actions()));
                }
            },
            None => {},
        }
    }

    /// Send a BYE to terminate a dialog (see `bye_sent`); none for an unknown handle or when
    /// the dialog sends none.
    pub fn send_bye(&mut self, handle: DialogHandle) -> (r: Option<SipRequest>)
        requires
            old(self).wf(),
            old(self).spec_dialogs().contains_key(handle.0) && old(self).spec_dialogs()[handle.0].spec_info().state
                == DialogState::Confirmed ==> old(self).spec_dialogs()[handle.0].spec_info().local_seq < u32::MAX,
        ensures
            final(self).wf(),
            final(self).spec_contact() == old(self).spec_contact(),
            bye_sent(*old(self), handle.0, *final(self), opt_request(r)),
    {
        match self.find_dialog(handle.0) {
            Some(i) => {
                let ghost full = self.dialogs@;
                let (h, mut d) = self.take_dialog(i);
                let bye = d.send_bye();
                let ghost d1 = d;
                self.collect(h, &mut d);
                self.put_dialog(i, (h, d), Ghost(full));
                proof {
                    let om = old(self).spec_dialogs();
                    let nm = self.spec_dialogs();
                    assert(nm.dom() =~= om.dom());
                    assert(stepped(om, nm, handle.0, d1));
                    assert(bye_step(om[handle.0], d1, opt_request(bye)) && stepped(om, nm, handle.0, d1)
                        && self.spec_actions() == old(self).spec_actions() + lift_all(handle.0, d1.spec_actions()));
                }
                bye
            },
            None => None,
        }
    }

    /// Mark ACK as sent for a dialog; nothing happens for an unknown handle.
    pub fn ack_sent(&mut self, handle: DialogHandle)
        requires
            old(self).wf(),
        ensures
            final(self).wf(),
            final(self).spec_contact() == old(self).spec_contact(),
            tables_same(*old(self), *final(self)),
            final(self).spec_actions() == old(self).spec_actions(),
            old(self).spec_dialogs().contains_key(handle.0) ==> {
                let d = final(self).spec_dialogs()[handle.0];
                let o = old(self).spec_dialogs()[handle.0];
                &&& final(self).spec_dialogs() == old(self).spec_dialogs().insert(handle.0, d)
                &&& d.spec_ack()
                &&& d.spec_info() == o.spec_info()
                &&& d.spec_role() == o.spec_role()
                &&& d.spec_invite() == o.spec_invite()
                &&& d.spec_actions() == o.spec_actions()
            },
            !old(self).spec_dialogs().contains_key(handle.0) ==> final(self).spec_dialogs() == old(self).spec_dialogs(),
    {
        match self.find_dialog(handle.0) {
            Some(i) => {
                let ghost full = self.dialogs@;
                let (h, mut d) = self.take_dialog(i);
                d.ack_sent();
                self.put_dialog(i, (h, d), Ghost(full));
            },
            None => {},
        }
    }

    /// Get a dialog by its handle.
    pub fn dialog(&self, handle: DialogHandle) -> (r: Option<&InviteDialog>)
        requires
            self.wf(),
        ensures
            match r {
                Some(d) => self.spec_dialogs().contains_key(handle.0) && *d == self.spec_dialogs()[handle.0],
                None => !self.spec_dialogs().contains_key(handle.0),
            },
    {
        match self.find_dialog(handle.0) {
            Some(i) => Some(&self.dialogs[i].1),
            None => None,
        }
    }

    /// Drain pending actions, oldest first.
    pub fn poll_actions(&mut self) -> (v: Vec<ManagerAction>)
        requires
            old(self).wf(),
        ensures
            final(self).wf(),
            manager_actions_view(v@) == old(self).spec_actions(),
            final(self).spec_actions() == Seq::<ManagerActionView>::empty(),
            tables_same(*old(self), *final(self)),
            final(self).spec_dialogs() == old(self).spec_dialogs(),
            final(self).spec_contact() == old(self).spec_contact(),
    {
        let mut out: Vec<ManagerAction> = Vec::new();
        std::mem::swap(&mut out, &mut self.actions);
        assert(self.spec_actions() =~= Seq::<ManagerActionView>::empty());
        out
    }

    /// Forget the identifier `(call_id, local_tag, remote_tag)`, if known.
    fn remove_id(&mut self, id: &DialogId)
        requires
            old(self).wf(),
        ensures
            final(self).wf(),
            final(self).spec_ids() == old(self).spec_ids().remove(id_key(*id)),
            final(self).dialogs@ == old(self).dialogs@,
            final(self).pending_uac@ == old(self).pending_uac@,
            final(self).actions@ == old(self).actions@,
            final(self).next_handle == old(self).next_handle,
            final(self).local_contact@ == old(self).local_contact@,
    {
        let ghost s = id_entries(self.id_to_handle@);
        match self.find_id(id.call_id.as_str(), id.local_tag.as_str(), id.remote_tag.as_str()) {
            Some(i) => {
                proof {
                    lemma_keyed_remove(s, i as int);
                }
                let _ = self.id_to_handle.remove(i);
                assert(id_entries(self.id_to_handle@) =~= s.remove(i as int));
            },
            None => {
                assert(keyed(s).remove(id_key(*id)) =~= keyed(s));
            },
        }
    }

    /// Remove terminated dialogs, and forget their identifiers.
    pub fn cleanup_terminated(&mut self)
        requires
            old(self).wf(),
        ensures
            final(self).wf(),
            final(self).spec_contact() == old(self).spec_contact(),
            final(self).spec_next() == old(self).spec_next(),
            final(self).spec_pending() == old(self).spec_pending(),
            final(self).spec_actions() == old(self).spec_actions(),
            forall|h: u64| #[trigger]
                final(self).spec_dialogs().contains_key(h) <==> old(self).spec_dialogs().contains_key(h)
                    && old(self).spec_dialogs()[h].spec_info().state != DialogState::Terminated,
            forall|h: u64| #[trigger]
                final(self).spec_dialogs().contains_key(h) ==> final(self).spec_dialogs()[h] == old(
                    self,
                ).spec_dialogs()[h],
            final(self).spec_ids() == old(self).spec_ids().remove_keys(terminated_ids(old(self).spec_dialogs())),
    {
        let ghost om = self.spec_dialogs();
        let mut removed: Vec<DialogId> = Vec::new();
        let mut i: usize = 0;
        while i < self.dialogs.len()
            invariant
                self.wf(),
                i <= self.dialogs@.len(),
                self.id_to_handle@ == old(self).id_to_handle@,
                self.pending_uac@ == old(self).pending_uac@,
                self.actions@ == old(self).actions@,
                self.next_handle == old(self).next_handle,
                self.local_contact@ == old(self).local_contact@,
                om == old(self).spec_dialogs(),
                forall|j: int| 0 <= j < i ==> (#[trigger] self.dialogs@[j]).1.spec_info().state
                    != DialogState::Terminated,
                forall|h: u64| #[trigger]
                    self.spec_dialogs().contains_key(h) ==> om.contains_key(h) && self.spec_dialogs()[h] == om[h],
                forall|h: u64| #[trigger]
                    om.contains_key(h) && om[h].spec_info().state != DialogState::Terminated
                        ==> self.spec_dialogs().contains_key(h),
                ids_of(removed@) == Set::new(
                    |k: (Seq<char>, Seq<char>, Seq<char>)|
                        exists|h: u64|
                            #![trigger om[h]]
                            om.contains_key(h) && !self.spec_dialogs().contains_key(h) && id_key(
                                om[h].spec_info().id,
                            ) == k,
                ),
                forall|h: u64| #[trigger]
                    om.contains_key(h) && !self.spec_dialogs().contains_key(h) ==> om[h].spec_info().state
                        == DialogState::Terminated,
            decreases self.dialogs.len() - i,
        {
            if self.dialogs[i].1.is_terminated() {
                let ghost cur = self.spec_dialogs();
                let ghost s = dialog_entries(self.dialogs@);
                let ghost removed0 = removed@;
                let ghost prev = self.dialogs@;
                proof {
                    lemma_keyed_remove(s, i as int);
                    lemma_keyed_at(s, i as int);
                }
                let (h, d) = self.dialogs.remove(i);
                assert(dialog_entries(self.dialogs@) =~= s.remove(i as int));
                let id = d.id().clone();
                removed.push(id);
                proof {
                    let h0 = h.0;
                    assert(self.spec_dialogs() == cur.remove(h0));
                    assert forall|j: int| 0 <= j < self.dialogs@.len() implies (#[trigger] self.dialogs@[j]).0.0
                        < self.next_handle && self.dialogs@[j].1.spec_actions() == Seq::<ActionView>::empty() by {
                        let a = if j < i { j } else { j + 1 };
                        assert(self.dialogs@[j] == prev[a]);
                    }
                    assert(ids_of(removed@) =~= Set::new(
                        |k: (Seq<char>, Seq<char>, Seq<char>)|
                            exists|g: u64|
                                #![trigger om[g]]
                                om.contains_key(g) && !self.spec_dialogs().contains_key(g) && id_key(
                                    om[g].spec_info().id,
                                ) == k,
                    )) by {
                        assert forall|k: (Seq<char>, Seq<char>, Seq<char>)| #[trigger] ids_of(removed@).contains(k)
                            implies exists|g: u64|
                            #![trigger om[g]]
                            om.contains_key(g) && !self.spec_dialogs().contains_key(g) && id_key(om[g].spec_info().id)
                                == k by {
                            let j = choose|j: int| 0 <= j < removed@.len() && #[trigger] id_key(removed@[j]) == k;
                            if j < removed0.len() {
                                assert(ids_of(removed0).contains(k)) by {
                                    assert(removed@[j] == removed0[j]);
                                }
                                let g = choose|g: u64|
                                    #![trigger om[g]]
                                    om.contains_key(g) && !cur.contains_key(g) && id_key(om[g].spec_info().id) == k;
                                assert(om.contains_key(g) && !self.spec_dialogs().contains_key(g));
                            } else {
                                assert(om.contains_key(h0) && !self.spec_dialogs().contains_key(h0)
                                    && id_key(om[h0].spec_info().id) == k);
                            }
                        }
                        assert forall|k: (Seq<char>, Seq<char>, Seq<char>)|
                            (exists|g: u64|
                                #![trigger om[g]]
                                om.contains_key(g) && !self.spec_dialogs().contains_key(g) && id_key(
                                    om[g].spec_info().id,
                                ) == k) implies #[trigger] ids_of(removed@).contains(k) by {
                            let g = choose|g: u64|
                                #![trigger om[g]]
                                om.contains_key(g) && !self.spec_dialogs().contains_key(g) && id_key(om[g].spec_info().id)
                                    == k;
                            if g == h0 {
                                assert(id_key(removed@[removed@.len() - 1]) == k);
                            } else {
                                assert(!cur.contains_key(g));
                                assert(ids_of(removed0).contains(k));
                                let j = choose|j: int| 0 <= j < removed0.len() && #[trigger] id_key(removed0[j]) == k;
                                assert(removed@[j] == removed0[j]);
                            }
                        }
                    }
                }
            } else {
                i += 1;
            }
        }
        let ghost ids0 = self.spec_ids();
        let ghost after = self.dialogs@;
        proof {
            assert forall|g: u64| #[trigger] self.spec_dialogs().contains_key(g) implies self.spec_dialogs()[g].spec_info().state
                != DialogState::Terminated by {
                let s = dialog_entries(self.dialogs@);
                let j = choose|j: int| 0 <= j < s.len() && #[trigger] s[j].0 == g;
                lemma_keyed_at(s, j);
                assert(self.dialogs@[j].1.spec_info().state != DialogState::Terminated);
            }
            assert(ids_of(removed@) =~= terminated_ids(om)) by {
                assert forall|k: (Seq<char>, Seq<char>, Seq<char>)| #[trigger] terminated_ids(om).contains(k)
                    implies ids_of(removed@).contains(k) by {
                    let g = choose|g: u64|
                        #![trigger om[g]]
                        om.contains_key(g) && om[g].spec_info().state == DialogState::Terminated && id_key(om[g].spec_info().id) == k;
                    if self.spec_dialogs().contains_key(g) {
                        assert(self.spec_dialogs()[g] == om[g]);
                    }
                    assert(om.contains_key(g) && !self.spec_dialogs().contains_key(g) && id_key(om[g].spec_info().id) == k);
                }
                assert forall|k: (Seq<char>, Seq<char>, Seq<char>)| #[trigger] ids_of(removed@).contains(k)
                    implies terminated_ids(om).contains(k) by {
                    let g = choose|g: u64|
                        #![trigger om[g]]
                        om.contains_key(g) && !self.spec_dialogs().contains_key(g) && id_key(om[g].spec_info().id) == k;
                    assert(om[g].spec_info().state == DialogState::Terminated);
                }
            }
            assert(ids_of(removed@.take(0)) =~= Set::empty());
            assert(ids0.remove_keys(Set::empty()) =~= ids0);
        }
        let mut k: usize = 0;
        while k < removed.len()
            invariant
                self.wf(),
                k <= removed@.len(),
                self.dialogs@ == after,
                self.spec_ids() == ids0.remove_keys(ids_of(removed@.take(k as int))),
                self.pending_uac@ == old(self).pending_uac@,
                self.actions@ == old(self).actions@,
                self.next_handle == old(self).next_handle,
                self.local_contact@ == old(self).local_contact@,
            decreases removed.len() - k,
        {
            let ghost before = self.spec_ids();
            self.remove_id(&removed[k]);
            proof {
                let t = removed@.take(k as int);
                assert(ids_of(removed@.take(k + 1)) =~= ids_of(t).insert(id_key(removed@[k as int]))) by {
                    assert forall|x: (Seq<char>, Seq<char>, Seq<char>)| #[trigger] ids_of(removed@.take(k + 1)).contains(x)
                        implies ids_of(t).insert(id_key(removed@[k as int])).contains(x) by {
                        let j = choose|j: int| 0 <= j < k + 1 && #[trigger] id_key(removed@.take(k + 1)[j]) == x;
                        if j < k {
                            assert(t[j] == removed@.take(k + 1)[j]);
                        }
                    }
                    assert forall|x: (Seq<char>, Seq<char>, Seq<char>)| #[trigger] ids_of(t).insert(id_key(removed@[k as int])).contains(x)
                        implies ids_of(removed@.take(k + 1)).contains(x) by {
                        if ids_of(t).contains(x) {
                            let j = choose|j: int| 0 <= j < t.len() && #[trigger] id_key(t[j]) == x;
                            assert(removed@.take(k + 1)[j] == t[j]);
                        } else {
                            assert(removed@.take(k + 1)[k as int] == removed@[k as int]);
                        }
                    }
                }
                assert(self.spec_ids() =~= ids0.remove_keys(ids_of(removed@.take(k + 1))));
            }
            k += 1;
        }
        proof {
            assert(removed@.take(removed@.len() as int) =~= removed@);
            assert forall|h: u64| #[trigger] self.spec_dialogs().contains_key(h) <==> old(self).spec_dialogs().contains_key(h)
                && old(self).spec_dialogs()[h].spec_info().state != DialogState::Terminated by {
                if self.spec_dialogs().contains_key(h) {
                    let s = dialog_entries(self.dialogs@);
                    let j = choose|j: int| 0 <= j < s.len() && #[trigger] s[j].0 == h;
                    lemma_keyed_at(s, j);
                    assert(self.dialogs@[j].1.spec_info().state != DialogState::Terminated);
                }
            }
        }
    }

    /// The position of the dialog with handle `h`.
    fn find_dialog(&self, h: u64) -> (r: Option<usize>)
        requires
            self.wf(),
        ensures
            r matches Some(i) ==> i < self.dialogs@.len() && self.dialogs@[i as int].0.0 == h
                && self.spec_dialogs().contains_key(h) && self.spec_dialogs()[h] == self.dialogs@[i as int].1,
            r is None ==> !self.spec_dialogs().contains_key(h),
    {
        let ghost s = dialog_entries(self.dialogs@);
        let mut i: usize = 0;
        while i < self.dialogs.len()
            invariant
                i <= self.dialogs@.len(),
                s == dialog_entries(self.dialogs@),
                self.wf(),
                forall|j: int| 0 <= j < i ==> #[trigger] s[j].0 != h,
            decreases self.dialogs.len() - i,
        {
            if self.dialogs[i].0.0 == h {
                proof {
                    lemma_keyed_at(s, i as int);
                }
                return Some(i);
            }
            assert(s[i as int].0 != h);
            i += 1;
        }
        assert(!keyed(s).contains_key(h));
        None
    }

    /// The position of the entry for the identifier `(call_id, local_tag, remote_tag)`.
    fn find_id(&self, call_id: &str, local_tag: &str, remote_tag: &str) -> (r: Option<usize>)
        requires
            self.wf(),
        ensures
            r matches Some(i) ==> i < self.id_to_handle@.len() && id_key(self.id_to_handle@[i as int].0) == (
            call_id@, local_tag@, remote_tag@) && self.spec_ids().contains_key((call_id@, local_tag@, remote_tag@))
                && self.spec_ids()[(call_id@, local_tag@, remote_tag@)] == self.id_to_handle@[i as int].1.0,
            r is None ==> !self.spec_ids().contains_key((call_id@, local_tag@, remote_tag@)),
    {
        let ghost s = id_entries(self.id_to_handle@);
        let ghost k = (call_id@, local_tag@, remote_tag@);
        let mut i: usize = 0;
        while i < self.id_to_handle.len()
            invariant
                i <= self.id_to_handle@.len(),
                s == id_entries(self.id_to_handle@),
                self.wf(),
                k == (call_id@, local_tag@, remote_tag@),
                forall|j: int| 0 <= j < i ==> #[trigger] s[j].0 != k,
            decreases self.id_to_handle.len() - i,
        {
            let e = &self.id_to_handle[i].0;
            if crate::text::str_eq(e.call_id.as_str(), call_id) && crate::text::str_eq(e.local_tag.as_str(), local_tag)
                && crate::text::str_eq(e.remote_tag.as_str(), remote_tag) {
                proof {
                    lemma_keyed_at(s, i as int);
                }
                return Some(i);
            }
            assert(s[i as int].0 != k);
            i += 1;
        }
        assert(!keyed(s).contains_key(k));
        None
    }

    /// The position of the pending entry for `(call_id, from_tag)`.
    fn find_pending(&self, call_id: &str, from_tag: &str) -> (r: Option<usize>)
        requires
            self.wf(),
        ensures
            r matches Some(i) ==> i < self.pending_uac@.len() && (self.pending_uac@[i as int].0@,
            self.pending_uac@[i as int].1@) == (call_id@, from_tag@) && self.spec_pending().contains_key(
                (call_id@, from_tag@),
            ) && self.spec_pending()[(call_id@, from_tag@)] == self.pending_uac@[i as int].2.0,
            r is None ==> !self.spec_pending().contains_key((call_id@, from_tag@)),
    {
        let ghost s = pending_entries(self.pending_uac@);
        let ghost k = (call_id@, from_tag@);
        let mut i: usize = 0;
        while i < self.pending_uac.len()
            invariant
                i <= self.pending_uac@.len(),
                s == pending_entries(self.pending_uac@),
                self.wf(),
                k == (call_id@, from_tag@),
                forall|j: int| 0 <= j < i ==> #[trigger] s[j].0 != k,
            decreases self.pending_uac.len() - i,
        {
            if crate::text::str_eq(self.pending_uac[i].0.as_str(), call_id) && crate::text::str_eq(
                self.pending_uac[i].1.as_str(),
                from_tag,
            ) {
                proof {
                    lemma_keyed_at(s, i as int);
                }
                return Some(i);
            }
            assert(s[i as int].0 != k);
            i += 1;
        }
        assert(!keyed(s).contains_key(k));
        None
    }
}

} // verus!

verus! {

/// Once a response confirms an early UAC dialog, requests that name the dialog reach it: its
/// identifier maps to its handle.
pub proof fn lemma_confirmed_dialog_is_routable(o: DialogManager, p: ResponseView, f: DialogManager, h: u64)
    requires
        response_handled(o, p, f, Some(DialogHandle(h))),
        o.spec_dialogs().contains_key(h),
        o.spec_dialogs()[h].spec_info().state == DialogState::Early,
        f.spec_dialogs()[h].spec_info().state == DialogState::Confirmed,
    ensures
        f.spec_ids().contains_key(id_key(f.spec_dialogs()[h].spec_info().id)),
        f.spec_ids()[id_key(f.spec_dialogs()[h].spec_info().id)] == h,
{
    let t = response_target(o, p);
    assert(t == Some(h));
    let d1 = choose|d1: InviteDialog| #[trigger]
        response_step(o.spec_dialogs()[h], p, d1) && stepped(o.spec_dialogs(), f.spec_dialogs(), h, d1)
            && f.spec_actions() == o.spec_actions() + lift_all(h, d1.spec_actions()) && if o.spec_dialogs()[h].spec_info().state
            == DialogState::Early && d1.spec_info().state == DialogState::Confirmed {
            f.spec_ids() == o.spec_ids().insert(id_key(d1.spec_info().id), h) && f.spec_pending() == o.spec_pending().remove(
                (call_id_of(p.headers)->0, from_tag_of(p.headers)->0),
            )
        } else {
            f.spec_ids() == o.spec_ids() && f.spec_pending() == o.spec_pending()
        };
    assert(f.spec_dialogs()[h].spec_info() == d1.spec_info());
}

/// A new INVITE never takes a handle in use: the dialog made for it gets a handle that no
/// dialog had, and the dialogs that were there stay as they were.
pub proof fn lemma_new_dialog_handle_is_fresh(o: DialogManager, q: RequestView, f: DialogManager, h: u64)
    requires
        o.wf(),
        request_handled(o, q, f, Some(DialogHandle(h))),
        request_key(q) is None || !o.spec_ids().contains_key(request_key(q)->0),
    ensures
        !o.spec_dialogs().contains_key(h),
        f.spec_dialogs().contains_key(h),
        forall|k: u64| #[trigger] o.spec_dialogs().contains_key(k) ==> f.spec_dialogs().contains_key(k)
            && f.spec_dialogs()[k] == o.spec_dialogs()[k],
{
    assert(h == o.spec_next());
    if o.spec_dialogs().contains_key(h) {
        let s = dialog_entries(o.dialogs@);
        let i = choose|i: int| 0 <= i < s.len() && #[trigger] s[i].0 == h;
        assert(o.dialogs@[i].0.0 < o.next_handle);
    }
}

} // verus!
