//! Pending skill installs awaiting confirmation: one-shot tokens that expire.
use vstd::prelude::*;
use crate::keyed::{unique_keys, has_key, value_of, find_key, lemma_remove_entry, lemma_push_entry};
use crate::skill::SkillAnalysisReport;
use crate::text::views;
use crate::clock::utc_now_millis;
use crate::ids::{new_uuid_string, is_hyphenated_uuid};

verus! {

/// An analysed skill waiting for confirmation.
pub struct PendingSkillInstall {
    pub source: String,
    pub report: SkillAnalysisReport,
    pub user_scope: String,
    pub conversation_scope: String,
    /// When it was analysed, milliseconds since the Unix epoch.
    pub created_at_ms: i64,
}

/// The pending installs by token, how long a token lives, and who may install.
pub struct SkillInstallState {
    /// Lifetime of a token, in milliseconds.
    pub ttl_ms: i64,
    /// User scopes allowed to install; `None` allows everyone.
    pub allowed_scopes: Option<Vec<String>>,
    pub pending: Vec<(String, PendingSkillInstall)>,
}

/// A pending install has outlived the time to live at `now_ms`.
pub open spec fn expired(p: PendingSkillInstall, ttl_ms: i64, now_ms: i64) -> bool {
    now_ms - p.created_at_ms > ttl_ms
}

/// Seconds that `chrono::Duration::seconds` accepts.
pub open spec fn ttl_in_range(ttl_seconds: i64) -> bool {
    -(i64::MAX / 1000) <= ttl_seconds <= i64::MAX / 1000
}

impl SkillInstallState {
    /// Tokens are unique.
    pub open spec fn wf(&self) -> bool {
        unique_keys(self.pending@)
    }

    /// What taking `token` out at `now_ms` gives: its install, when it is
    /// pending and has not expired.
    pub open spec fn take_result(&self, token: Seq<char>, now_ms: i64) -> Option<PendingSkillInstall> {
        if self.pending_token(token) && !expired(self.pending_install(token), self.ttl_ms, now_ms) {
            Some(self.pending_install(token))
        } else {
            None
        }
    }

    /// A user scope may install skills: every scope when no list is set,
    /// otherwise the listed ones.
    pub open spec fn allows_scope(&self, user_scope: Seq<char>) -> bool {
        match self.allowed_scopes {
            None => true,
            Some(allowed) => views(allowed@).contains(user_scope),
        }
    }

    /// A token is pending.
    pub open spec fn pending_token(&self, token: Seq<char>) -> bool {
        has_key(self.pending@, token)
    }

    /// The install a pending token stands for.
    pub open spec fn pending_install(&self, token: Seq<char>) -> PendingSkillInstall {
        value_of(self.pending@, token)
    }

    /// State with the given time to live and no scope restriction.
    pub fn new(ttl_seconds: i64) -> (s: Self)
        requires
            ttl_in_range(ttl_seconds),
        ensures
            s.wf(),
            s.ttl_ms == ttl_seconds * 1000,
            s.allowed_scopes is None,
            s.pending@.len() == 0,
    {
        Self::with_allowed_scopes(ttl_seconds, None)
    }

    /// State with the given time to live and allowed user scopes.
    pub fn with_allowed_scopes(ttl_seconds: i64, skill_install_allowed_scopes: Option<Vec<String>>) -> (s: Self)
        requires
            ttl_in_range(ttl_seconds),
        ensures
            s.wf(),
            s.ttl_ms == ttl_seconds * 1000,
            s.allowed_scopes == skill_install_allowed_scopes,
            s.pending@.len() == 0,
    {
        SkillInstallState {
            ttl_ms: ttl_seconds * 1000,
            allowed_scopes: skill_install_allowed_scopes,
            pending: Vec::new(),
        }
    }

    /// Records a pending install under a fresh random token, created now, and
    /// returns the token.
    pub fn create_pending(
        &mut self,
        source: String,
        report: SkillAnalysisReport,
        user_scope: String,
        conversation_scope: String,
    ) -> (token: String)
        requires
            old(self).wf(),
        ensures
            is_hyphenated_uuid(token@),
            final(self).wf(),
            final(self).ttl_ms == old(self).ttl_ms,
            final(self).allowed_scopes == old(self).allowed_scopes,
            final(self).pending_token(token@),
            final(self).pending_install(token@).source == source,
            final(self).pending_install(token@).report == report,
            final(self).pending_install(token@).user_scope == user_scope,
            final(self).pending_install(token@).conversation_scope == conversation_scope,
            forall|k: Seq<char>|
                k != token@ ==> (final(self).pending_token(k) == old(self).pending_token(k) && (old(
                    self,
                ).pending_token(k) ==> final(self).pending_install(k) == old(self).pending_install(
                    k,
                ))),
    {
        let token = new_uuid_string();
        let now_ms = utc_now_millis();
        self.create_pending_at(token.clone(), source, report, user_scope, conversation_scope, now_ms);
        token
    }

    /// Records a pending install under `token` (replacing one with the same
    /// token), created at `now_ms`.
    pub fn create_pending_at(
        &mut self,
        token: String,
        source: String,
        report: SkillAnalysisReport,
        user_scope: String,
        conversation_scope: String,
        now_ms: i64,
    )
        requires
            old(self).wf(),
        ensures
            final(self).wf(),
            final(self).ttl_ms == old(self).ttl_ms,
            final(self).allowed_scopes == old(self).allowed_scopes,
            final(self).pending_token(token@),
            final(self).pending_install(token@) == (PendingSkillInstall {
                source,
                report,
                user_scope,
                conversation_scope,
                created_at_ms: now_ms,
            }),
            forall|k: Seq<char>|
                k != token@ ==> (final(self).pending_token(k) == old(self).pending_token(k) && (old(
                    self,
                ).pending_token(k) ==> final(self).pending_install(k) == old(self).pending_install(
                    k,
                ))),
    {
        let ghost tok = token@;
        if let Some(i) = find_key(&self.pending, token.as_str()) {
            proof {
                lemma_remove_entry(self.pending@, i as int);
            }
            let _ = self.pending.remove(i);
        }
        let entry = (
            token,
            PendingSkillInstall { source, report, user_scope, conversation_scope, created_at_ms: now_ms },
        );
        let ghost before = self.pending@;
        proof {
            lemma_push_entry(before, entry);
        }
        self.pending.push(entry);
    }

    /// Takes the pending install of `token` out, judging its age by the clock:
    /// the token is gone afterwards whatever it held; an install comes back only
    /// for a pending token.
    pub fn take_if_valid(&mut self, token: &str) -> (r: Option<PendingSkillInstall>)
        requires
            old(self).wf(),
        ensures
            final(self).wf(),
            final(self).ttl_ms == old(self).ttl_ms,
            final(self).allowed_scopes == old(self).allowed_scopes,
            !final(self).pending_token(token@),
            forall|k: Seq<char>|
                k != token@ ==> (final(self).pending_token(k) == old(self).pending_token(k) && (old(
                    self,
                ).pending_token(k) ==> final(self).pending_install(k) == old(self).pending_install(
                    k,
                ))),
            r is Some ==> old(self).pending_token(token@) && r == Some(
                old(self).pending_install(token@),
            ),
            exists|now_ms: i64| r == old(self).take_result(token@, now_ms),
    {
        let now_ms = utc_now_millis();
        self.take_if_valid_at(token, now_ms)
    }

    /// Takes the pending install of `token` out: the token is gone afterwards
    /// whatever it held; the install is returned only when it has not expired at
    /// `now_ms`.
    pub fn take_if_valid_at(&mut self, token: &str, now_ms: i64) -> (r: Option<PendingSkillInstall>)
        requires
            old(self).wf(),
        ensures
            final(self).wf(),
            final(self).ttl_ms == old(self).ttl_ms,
            final(self).allowed_scopes == old(self).allowed_scopes,
            !final(self).pending_token(token@),
            forall|k: Seq<char>|
                k != token@ ==> (final(self).pending_token(k) == old(self).pending_token(k) && (old(
                    self,
                ).pending_token(k) ==> final(self).pending_install(k) == old(self).pending_install(
                    k,
                ))),
            r == old(self).take_result(token@, now_ms),
    {
        match find_key(&self.pending, token) {
            Some(i) => {
                proof {
                    lemma_remove_entry(self.pending@, i as int);
                }
                let (_, entry) = self.pending.remove(i);
                let age: i128 = (now_ms as i128) - (entry.created_at_ms as i128);
                if age > self.ttl_ms as i128 {
                    None
                } else {
                    Some(entry)
                }
            },
            None => None,
        }
    }

    /// Whether a user scope may install skills.
    pub fn is_scope_allowed(&self, user_scope: &str) -> (r: bool)
        ensures
            r == self.allows_scope(user_scope@),
    {
        match &self.allowed_scopes {
            None => true,
            Some(allowed) => crate::text::contains_string(allowed, user_scope),
        }
    }
}

/// A confirmation token works once: once taken (the token is no longer
/// pending), taking it again gives nothing, whatever the clock says.
pub proof fn law_token_single_use(after_take: SkillInstallState, token: Seq<char>, now_ms: i64)
    requires
        after_take.wf(),
        !after_take.pending_token(token),
    ensures
        after_take.take_result(token, now_ms) is None,
{
}

/// An install recorded at `created_ms` is given back by its token as long as
/// no more than the time to live has passed, and not after.
pub proof fn law_token_valid_within_ttl(
    s: SkillInstallState,
    token: Seq<char>,
    install: PendingSkillInstall,
    now_ms: i64,
)
    requires
        s.wf(),
        s.pending_token(token),
        s.pending_install(token) == install,
    ensures
        (now_ms - install.created_at_ms <= s.ttl_ms) ==> s.take_result(token, now_ms) == Some(install),
        (now_ms - install.created_at_ms > s.ttl_ms) ==> s.take_result(token, now_ms) is None,
{
}

} // verus!
