//! The follower-diff engine: paging through the followers of the owner,
//! comparing the result with the previous snapshot, and the alert to send.
//!
//! The engine does no I/O. `FollowerScan` says which page to fetch next and
//! takes each fetched page; `reconcile` compares two snapshots.

use crate::endpoints::{followers_url, followers_url_of};
use crate::handle::{instance_domain, local_domain, normalize_handle, normalized_handle};
use crate::pattern::{
    capture_group, captured_group, ensure_accepted, option_chars, pattern_compiles,
    PatternRefused,
};
use crate::snapshot::{
    distinct_ids, folded, has_id, lemma_folded_entry, lemma_folded_ids, lemma_folded_last_wins,
    lemma_put, put, Pair, Snapshot,
};
use vstd::pervasive::unreached;
use vstd::prelude::*;
use vstd::string::StringExecFns;

verus! {

/// The pattern of the continuation in a link-relation header: an address in
/// angle brackets, a semicolon, optional white space, and `rel="next"`.
pub const NEXT_LINK_PATTERN: &'static str = "<([^>]+)>;\\s*rel=\"next\"";

/// The subject of the alert.
pub const ALERT_SUBJECT: &'static str = "Mastodon Unfollower Alert";

/// The first lines of the alert.
pub const ALERT_HEADING: &'static str = "The following accounts have unfollowed you:\n\n";

/// An account as the server describes it.
#[derive(Debug, Clone, PartialEq, Eq)]
pub struct Account {
    pub id: String,
    pub username: String,
    pub acct: String,
}

impl Account {
    /// The id of the account with its canonical handle on the instance
    /// `domain`.
    pub open spec fn entry(self, domain: Seq<char>) -> Pair {
        (self.id@, normalized_handle(self.acct@, domain))
    }
}

/// The address of the next page that a link-relation header names, if it
/// names one.
pub open spec fn next_link_of(header: Seq<char>) -> Option<Seq<char>> {
    captured_group(NEXT_LINK_PATTERN@, header, 1)
}

/// The address of the page that follows, given the link-relation header of
/// a page, if the page had one.
pub open spec fn continuation(link: Option<Seq<char>>) -> Option<Seq<char>> {
    match link {
        Some(header) => next_link_of(header),
        None => None,
    }
}

/// The entries of a snapshot after the accounts of one page arrived, each
/// under its canonical handle on `domain`.
pub open spec fn merged(pairs: Seq<Pair>, accounts: Seq<Account>, domain: Seq<char>) -> Seq<Pair>
    decreases accounts.len(),
{
    if accounts.len() == 0 {
        pairs
    } else {
        put(
            merged(pairs, accounts.drop_last(), domain),
            accounts.last().id@,
            normalized_handle(accounts.last().acct@, domain),
        )
    }
}

/// The entries that a scan holds after the pages `pages` arrived in this
/// order.
pub open spec fn scanned(pages: Seq<Seq<Account>>, domain: Seq<char>) -> Seq<Pair>
    decreases pages.len(),
{
    if pages.len() == 0 {
        Seq::empty()
    } else {
        merged(scanned(pages.drop_last(), domain), pages.last(), domain)
    }
}

/// The accounts of all pages, in the order of arrival.
pub open spec fn all_accounts(pages: Seq<Seq<Account>>) -> Seq<Account>
    decreases pages.len(),
{
    if pages.len() == 0 {
        Seq::empty()
    } else {
        all_accounts(pages.drop_last()) + pages.last()
    }
}

/// The entries of `accounts` on `domain`, one for one.
pub open spec fn entries_of(accounts: Seq<Account>, domain: Seq<char>) -> Seq<Pair> {
    accounts.map_values(|a: Account| a.entry(domain))
}

/// The handles of the entries of `previous` whose id `current` lacks, in the
/// order of `previous`.
pub open spec fn removed_handles(previous: Seq<Pair>, current: Map<Seq<char>, Seq<char>>) -> Seq<
    Seq<char>,
>
    decreases previous.len(),
{
    if previous.len() == 0 {
        Seq::empty()
    } else if current.contains_key(previous.last().0) {
        removed_handles(previous.drop_last(), current)
    } else {
        removed_handles(previous.drop_last(), current).push(previous.last().1)
    }
}

/// The lines of the alert that name the removed handles: `@`, the handle and
/// a newline for each.
pub open spec fn alert_lines(handles: Seq<Seq<char>>) -> Seq<char>
    decreases handles.len(),
{
    if handles.len() == 0 {
        Seq::empty()
    } else {
        alert_lines(handles.drop_last()) + seq!['@'] + handles.last() + seq!['\n']
    }
}

/// The text of the alert for the removed handles.
pub open spec fn alert_body(handles: Seq<Seq<char>>) -> Seq<char> {
    ALERT_HEADING@ + alert_lines(handles)
}

/// The character sequences of a list of strings.
pub open spec fn texts(strings: Seq<String>) -> Seq<Seq<char>> {
    strings.map_values(|s: String| s@)
}

/// Merging the accounts of a page keeps the ids distinct, and the map is the
/// one that results from inserting the page's entries in order.
pub proof fn lemma_merged(pairs: Seq<Pair>, accounts: Seq<Account>, domain: Seq<char>)
    requires
        distinct_ids(pairs),
    ensures
        distinct_ids(merged(pairs, accounts, domain)),
        folded(merged(pairs, accounts, domain)) == folded(pairs + entries_of(accounts, domain)),
    decreases accounts.len(),
{
    if accounts.len() > 0 {
        let front = accounts.drop_last();
        let last = accounts.last();
        lemma_merged(pairs, front, domain);
        lemma_put(merged(pairs, front, domain), last.id@, last.entry(domain).1);
        let whole = pairs + entries_of(accounts, domain);
        assert(whole.drop_last() == pairs + entries_of(front, domain));
    }
}

/// What is appended to a list changes its map in a way that depends on the
/// map alone.
pub proof fn lemma_folded_append(a: Seq<Pair>, b: Seq<Pair>, tail: Seq<Pair>)
    requires
        folded(a) == folded(b),
    ensures
        folded(a + tail) == folded(b + tail),
    decreases tail.len(),
{
    if tail.len() > 0 {
        lemma_folded_append(a, b, tail.drop_last());
        assert((a + tail).drop_last() == a + tail.drop_last());
        assert((b + tail).drop_last() == b + tail.drop_last());
    }
}

/// A scan keeps the ids distinct, and its map is the one that results from
/// inserting the entries of all accounts in the order of arrival.
pub proof fn lemma_scanned(pages: Seq<Seq<Account>>, domain: Seq<char>)
    ensures
        distinct_ids(scanned(pages, domain)),
        folded(scanned(pages, domain)) == folded(entries_of(all_accounts(pages), domain)),
    decreases pages.len(),
{
    if pages.len() > 0 {
        let front = pages.drop_last();
        lemma_scanned(front, domain);
        lemma_merged(scanned(front, domain), pages.last(), domain);
        lemma_folded_append(
            scanned(front, domain),
            entries_of(all_accounts(front), domain),
            entries_of(pages.last(), domain),
        );
        assert(entries_of(all_accounts(front), domain) + entries_of(pages.last(), domain)
            == entries_of(all_accounts(pages), domain));
    }
}

/// The map that a scan reconstructs from any sequence of pages holds exactly
/// the ids that occur on some page, and gives each id the canonical handle of
/// its last occurrence: a later page overwrites an earlier one.
pub proof fn lemma_scan_collects_all_pages(pages: Seq<Seq<Account>>, domain: Seq<char>)
    ensures
        forall|id: Seq<char>|
            folded(scanned(pages, domain)).contains_key(id) <==> exists|i: int|
                0 <= i < all_accounts(pages).len() && (#[trigger] all_accounts(pages)[i]).id@ == id,
        forall|i: int|
            0 <= i < all_accounts(pages).len() && (forall|j: int|
                i < j < all_accounts(pages).len() ==> all_accounts(pages)[j].id@ != all_accounts(
                    pages,
                )[i].id@) ==> folded(scanned(pages, domain))[(#[trigger] all_accounts(
                pages,
            )[i]).id@] == normalized_handle(all_accounts(pages)[i].acct@, domain),
{
    let all = all_accounts(pages);
    let entries = entries_of(all, domain);
    lemma_scanned(pages, domain);
    lemma_folded_ids(entries);
    assert forall|id: Seq<char>|
        folded(entries).contains_key(id) <==> exists|i: int|
            0 <= i < all.len() && (#[trigger] all[i]).id@ == id by {
        if has_id(entries, id) {
            let i = choose|i: int| 0 <= i < entries.len() && #[trigger] entries[i].0 == id;
            assert(all[i].id@ == id);
        }
        if exists|i: int| 0 <= i < all.len() && (#[trigger] all[i]).id@ == id {
            let i = choose|i: int| 0 <= i < all.len() && (#[trigger] all[i]).id@ == id;
            assert(entries[i].0 == id);
        }
    }
    assert forall|i: int|
        0 <= i < all.len() && (forall|j: int|
            i < j < all.len() ==> all[j].id@ != all[i].id@) implies folded(entries)[(
    #[trigger] all[i]).id@] == normalized_handle(all[i].acct@, domain) by {
        lemma_folded_last_wins(entries, i);
    }
}

/// A handle is reported as removed exactly where the previous snapshot
/// stores it for an id that the current one lacks.
pub proof fn lemma_removed_handles(
    previous: Seq<Pair>,
    current: Map<Seq<char>, Seq<char>>,
    handle: Seq<char>,
)
    ensures
        removed_handles(previous, current).contains(handle) <==> exists|i: int|
            0 <= i < previous.len() && !current.contains_key((#[trigger] previous[i]).0)
                && previous[i].1 == handle,
    decreases previous.len(),
{
    let removed = removed_handles(previous, current);
    if previous.len() > 0 {
        let front = previous.drop_last();
        let last = previous.last();
        lemma_removed_handles(front, current, handle);
        let before = removed_handles(front, current);
        if exists|i: int|
            0 <= i < previous.len() && !current.contains_key((#[trigger] previous[i]).0)
                && previous[i].1 == handle {
            let i = choose|i: int|
                0 <= i < previous.len() && !current.contains_key((#[trigger] previous[i]).0)
                    && previous[i].1 == handle;
            if i == previous.len() - 1 {
                assert(removed[removed.len() - 1] == handle);
            } else {
                assert(!current.contains_key(front[i].0) && front[i].1 == handle);
                let k = choose|k: int| 0 <= k < before.len() && before[k] == handle;
                assert(removed[k] == handle);
            }
        }
    }
}

/// Said of the two maps: a handle is reported exactly where the previous
/// map gives it to an id that the current map lacks. The handle is the one
/// that was stored, whatever the account is called by now.
pub proof fn lemma_removed_is_what_previous_holds_alone(
    previous: Seq<Pair>,
    current: Map<Seq<char>, Seq<char>>,
    handle: Seq<char>,
)
    requires
        distinct_ids(previous),
    ensures
        removed_handles(previous, current).contains(handle) <==> exists|id: Seq<char>|
            #[trigger] folded(previous).contains_key(id) && !current.contains_key(id) && folded(
                previous,
            )[id] == handle,
{
    lemma_removed_handles(previous, current, handle);
    lemma_folded_ids(previous);
    if removed_handles(previous, current).contains(handle) {
        let i = choose|i: int|
            0 <= i < previous.len() && !current.contains_key((#[trigger] previous[i]).0)
                && previous[i].1 == handle;
        lemma_folded_entry(previous, i);
    }
    if exists|id: Seq<char>|
        #[trigger] folded(previous).contains_key(id) && !current.contains_key(id) && folded(
            previous,
        )[id] == handle {
        let id = choose|id: Seq<char>|
            #[trigger] folded(previous).contains_key(id) && !current.contains_key(id) && folded(
                previous,
            )[id] == handle;
        assert(has_id(previous, id));
        let i = choose|i: int| 0 <= i < previous.len() && #[trigger] previous[i].0 == id;
        lemma_folded_entry(previous, i);
    }
}

/// One handle is reported for each id that the previous map holds and the
/// current one lacks: none is left out and none is reported twice.
pub proof fn lemma_removed_count(previous: Seq<Pair>, current: Map<Seq<char>, Seq<char>>)
    requires
        distinct_ids(previous),
    ensures
        folded(previous).dom().difference(current.dom()).finite(),
        removed_handles(previous, current).len() == folded(previous).dom().difference(
            current.dom(),
        ).len(),
    decreases previous.len(),
{
    lemma_folded_ids(previous);
    if previous.len() == 0 {
        assert(folded(previous).dom().difference(current.dom()) == Set::<Seq<char>>::empty());
    } else {
        let front = previous.drop_last();
        let last = previous.last();
        lemma_removed_count(front, current);
        lemma_folded_ids(front);
        assert(!has_id(front, last.0)) by {
            assert forall|i: int| 0 <= i < front.len() implies front[i].0 != last.0 by {
                assert(front[i] == previous[i]);
            }
        }
        let gone = folded(front).dom().difference(current.dom());
        if current.contains_key(last.0) {
            assert(folded(previous).dom().difference(current.dom()) == gone);
        } else {
            assert(folded(previous).dom().difference(current.dom()) == gone.insert(last.0));
        }
    }
}

/// Against an empty current snapshot, every handle of the previous one is
/// reported, in order.
pub proof fn lemma_removed_against_empty(previous: Seq<Pair>)
    ensures
        removed_handles(previous, Map::empty()) == previous.map_values(|p: Pair| p.1),
    decreases previous.len(),
{
    if previous.len() > 0 {
        lemma_removed_against_empty(previous.drop_last());
    }
}

/// Nothing is reported where the current snapshot holds every id of the
/// previous one.
pub proof fn lemma_removed_none(previous: Seq<Pair>, current: Map<Seq<char>, Seq<char>>)
    requires
        forall|i: int| 0 <= i < previous.len() ==> current.contains_key((#[trigger] previous[i]).0),
    ensures
        removed_handles(previous, current) == Seq::<Seq<char>>::empty(),
    decreases previous.len(),
{
    if previous.len() > 0 {
        lemma_removed_none(previous.drop_last(), current);
    }
}

/// Reads the address of the next page from a link-relation header. Fails
/// only where the engine refuses the pattern of the continuation.
pub fn next_link(header: &str) -> (out: Result<Option<String>, PatternRefused>)
    ensures
        out is Ok <==> pattern_compiles(NEXT_LINK_PATTERN@),
        out matches Ok(next) ==> option_chars(next) == next_link_of(header@),
{
    match capture_group(NEXT_LINK_PATTERN, header, 1) {
        Ok(next) => Ok(next),
        Err(_) => Err(PatternRefused),
    }
}

/// A run through the pages of followers of one account. A scan exists only
/// where the engine accepted the pattern of the continuation.
#[derive(Debug)]
pub struct FollowerScan {
    domain: String,
    next: Option<String>,
    found: Snapshot,
}

impl FollowerScan {
    /// The engine accepted the pattern of the continuation. This holds of
    /// every scan that exists at run time.
    #[verifier::type_invariant]
    pub open spec fn well_formed(&self) -> bool {
        pattern_compiles(NEXT_LINK_PATTERN@)
    }

    /// The domain that is appended to local handles.
    pub closed spec fn domain(&self) -> Seq<char> {
        self.domain@
    }

    /// The address of the page to fetch next; `None` once the last page
    /// arrived.
    pub closed spec fn next(&self) -> Option<Seq<char>> {
        option_chars(self.next)
    }

    /// The entries collected so far.
    pub closed spec fn pairs(&self) -> Seq<Pair> {
        self.found.pairs()
    }

    /// The map collected so far.
    pub open spec fn view(&self) -> Map<Seq<char>, Seq<char>> {
        folded(self.pairs())
    }

    /// A scan of the followers of `owner_id` on the instance at
    /// `instance_url`, before its first page. Fails only where the engine
    /// refuses the pattern of the continuation.
    pub fn begin(instance_url: &str, owner_id: &str) -> (out: Result<FollowerScan, PatternRefused>)
        ensures
            out is Ok <==> pattern_compiles(NEXT_LINK_PATTERN@),
            out matches Ok(scan) ==> scan.domain() == instance_domain(instance_url@) && scan.next()
                == Some(followers_url_of(instance_url@, owner_id@)) && scan.pairs() == Seq::<
                Pair,
            >::empty(),
    {
        if ensure_accepted(NEXT_LINK_PATTERN).is_ok() {
            Ok(
                FollowerScan {
                    domain: local_domain(instance_url),
                    next: Some(followers_url(instance_url, owner_id)),
                    found: Snapshot::new(),
                },
            )
        } else {
            Err(PatternRefused)
        }
    }

    /// The address of the page to fetch next; `None` once the last page
    /// arrived.
    pub fn next_url(&self) -> (url: Option<&String>)
        ensures
            match url {
                Some(url) => self.next() == Some(url@),
                None => self.next() is None,
            },
    {
        self.next.as_ref()
    }

    /// Takes the accounts of a fetched page and the address of the page that
    /// follows it, if one does.
    pub fn absorb_page(self, accounts: &Vec<Account>, next: Option<String>) -> (out: FollowerScan)
        ensures
            out.domain() == self.domain(),
            out.next() == option_chars(next),
            out.pairs() == merged(self.pairs(), accounts@, self.domain()),
    {
        proof {
            use_type_invariant(&self);
        }
        let ghost before = self.pairs();
        let FollowerScan { domain, next: _, found } = self;
        let mut found = found;
        let mut i: usize = 0;
        while i < accounts.len()
            invariant
                i <= accounts.len(),
                found.pairs() == merged(before, accounts@.take(i as int), domain@),
            decreases accounts.len() - i,
        {
            let account = &accounts[i];
            let handle = normalize_handle(account.acct.as_str(), domain.as_str());
            found.insert(account.id.clone(), handle);
            i += 1;
            assert(accounts@.take(i as int).drop_last() == accounts@.take(i - 1));
        }
        assert(accounts@.take(accounts@.len() as int) == accounts@);
        FollowerScan { domain, next, found }
    }

    /// Takes a fetched page: its accounts and its link-relation header, if
    /// it had one. The scan goes on at the address that the header names as
    /// next, and ends where it names none.
    pub fn absorb(self, accounts: &Vec<Account>, link: Option<&str>) -> (out: FollowerScan)
        ensures
            out.domain() == self.domain(),
            out.next() == continuation(
                match link {
                    Some(header) => Some(header@),
                    None => None,
                },
            ),
            out.pairs() == merged(self.pairs(), accounts@, self.domain()),
    {
        proof {
            use_type_invariant(&self);
        }
        let next = match link {
            Some(header) => match next_link(header) {
                Ok(next) => next,
                Err(_) => unreached(),
            },
            None => None,
        };
        self.absorb_page(accounts, next)
    }

    /// The snapshot that the scan collected, once the last page arrived;
    /// `None` while a page is still to be fetched.
    pub fn finish(self) -> (out: Option<Snapshot>)
        ensures
            out is Some <==> self.next() is None,
            out matches Some(snapshot) ==> snapshot.pairs() == self.pairs(),
    {
        if self.next.is_none() {
            Some(self.found)
        } else {
            None
        }
    }
}

/// The alert to send for a run.
#[derive(Debug, Clone, PartialEq, Eq)]
pub struct Alert {
    pub subject: String,
    pub body: String,
}

/// The outcome of a run: the handles that are gone, the alert to send for
/// them, and the snapshot to store.
#[derive(Debug, PartialEq, Eq)]
pub struct Reconciliation {
    pub removed: Vec<String>,
    pub alert: Option<Alert>,
    pub snapshot: Snapshot,
}

/// The handles that `previous` stores for the ids that `current` lacks.
pub fn removed_followers(previous: &Snapshot, current: &Snapshot) -> (removed: Vec<String>)
    ensures
        texts(removed@) == removed_handles(previous.pairs(), current@),
{
    let mut removed: Vec<String> = Vec::new();
    let n = previous.len();
    let mut i: usize = 0;
    while i < n
        invariant
            i <= n,
            n == previous.pairs().len(),
            texts(removed@) == removed_handles(previous.pairs().take(i as int), current@),
        decreases n - i,
    {
        match previous.get(i) {
            Some(follower) => {
                if !current.contains_id(&follower.id) {
                    removed.push(follower.handle.clone());
                }
            },
            None => {},
        }
        i += 1;
        assert(previous.pairs().take(i as int).drop_last() == previous.pairs().take(i - 1));
    }
    assert(previous.pairs().take(n as int) == previous.pairs());
    removed
}

/// The text of the alert for the removed handles.
pub fn compose_alert_body(removed: &Vec<String>) -> (body: String)
    ensures
        body@ == alert_body(texts(removed@)),
{
    let mut body = String::from_str(ALERT_HEADING);
    let mut i: usize = 0;
    while i < removed.len()
        invariant
            i <= removed.len(),
            body@ == ALERT_HEADING@ + alert_lines(texts(removed@).take(i as int)),
        decreases removed.len() - i,
    {
        proof {
            reveal_strlit("@");
            reveal_strlit("\n");
        }
        body.append("@");
        body.append(removed[i].as_str());
        body.append("\n");
        i += 1;
        assert(texts(removed@).take(i as int).drop_last() == texts(removed@).take(i - 1));
    }
    assert(texts(removed@).take(removed@.len() as int) == texts(removed@));
    body
}

/// Compares the snapshot of the previous run with the one just fetched. The
/// fetched snapshot is the one to store, whatever it holds; an alert is due
/// exactly where a follower is gone.
pub fn reconcile(previous: &Snapshot, current: Snapshot) -> (out: Reconciliation)
    ensures
        out.snapshot.pairs() == current.pairs(),
        texts(out.removed@) == removed_handles(previous.pairs(), current@),
        out.alert is Some <==> out.removed@.len() > 0,
        out.alert matches Some(alert) ==> alert.subject@ == ALERT_SUBJECT@ && alert.body@
            == alert_body(texts(out.removed@)),
{
    let removed = removed_followers(previous, &current);
    let alert = if removed.len() > 0 {
        Some(Alert { subject: String::from_str(ALERT_SUBJECT), body: compose_alert_body(&removed) })
    } else {
        None
    };
    Reconciliation { removed, alert, snapshot: current }
}

} // verus!
