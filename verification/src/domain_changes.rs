//! The domain metadata actions of a commit.
use vstd::prelude::*;

use crate::actions::{self, DomainMetadata, DomainMetadataView, INTERNAL_DOMAIN_PREFIX};
use crate::error::{self, DeltaResult, Error, ErrorView};
use crate::log_validation;
use crate::row_tracking::{self, row_tracking_domain_metadata};
use crate::string_map::StringMap;
use crate::table_configuration;
use crate::table_features::{FeatureView, TableFeature};
use crate::text::{self, same_text, starts_with, text3};
use crate::transaction::{Transaction, TxnView};

verus! {

/// The domain that the user sets or removes at a position: first come those that are set.
pub open spec fn user_domain_at(
    additions: Seq<DomainMetadataView>,
    removals: Seq<Seq<char>>,
    i: int,
) -> Seq<char> {
    if i < additions.len() {
        additions[i].domain
    } else {
        removals[i - additions.len()]
    }
}

/// Whether a domain that the user sets or removes has already come.
pub open spec fn domain_repeats(
    additions: Seq<DomainMetadataView>,
    removals: Seq<Seq<char>>,
    i: int,
) -> bool {
    exists|j: int|
        0 <= j < i && #[trigger] user_domain_at(additions, removals, j) == user_domain_at(
            additions,
            removals,
            i,
        )
}

/// What is wrong with a domain that the user sets or removes.
pub open spec fn user_domain_fault(
    additions: Seq<DomainMetadataView>,
    removals: Seq<Seq<char>>,
    i: int,
) -> Option<ErrorView> {
    let d = user_domain_at(additions, removals, i);
    if text::has_prefix(d, INTERNAL_DOMAIN_PREFIX@) {
        Some(
            ErrorView::Generic(
                "Cannot modify domains that start with 'delta.' as those are system controlled"@,
            ),
        )
    } else if domain_repeats(additions, removals, i) {
        Some(
            ErrorView::Generic(
                "Metadata for domain "@ + d + " already specified in this transaction"@,
            ),
        )
    } else {
        None
    }
}

/// The first fault among the domains that the user sets or removes.
pub open spec fn user_domains_fault(
    additions: Seq<DomainMetadataView>,
    removals: Seq<Seq<char>>,
) -> Option<ErrorView> {
    log_validation::first_fault(
        |i: int| user_domain_fault(additions, removals, i),
        0,
        (additions.len() + removals.len()) as int,
    )
}

/// Why a transaction cannot change the domains that it is to change.
pub open spec fn domains_fault<D>(t: TxnView<D>) -> Option<ErrorView> {
    if t.user_domains.len() + t.removals.len() > 0 && !table_configuration::feature_supported(
        t.config.protocol,
        FeatureView::DomainMetadata,
    ) {
        Some(
            ErrorView::Unsupported(
                "Domain metadata operations require writer version 7 and the 'domainMetadata' writer feature"@,
            ),
        )
    } else {
        user_domains_fault(t.user_domains, t.removals)
    }
}

/// The tombstones of those domains that exist, each with its last configuration.
pub open spec fn tombstones(
    removals: Seq<Seq<char>>,
    existing: Map<Seq<char>, Seq<char>>,
) -> Seq<DomainMetadataView>
    decreases removals.len(),
{
    if removals.len() == 0 {
        Seq::empty()
    } else {
        let front = tombstones(removals.drop_last(), existing);
        let d = removals.last();
        if existing.dom().contains(d) {
            front.push(
                DomainMetadataView { domain: d, configuration: existing[d], removed: true },
            )
        } else {
            front
        }
    }
}

/// The action for the highest row identifier, where there is one.
pub open spec fn opt_row_tracking_domain(high_water_mark: Option<i64>) -> Seq<DomainMetadataView> {
    match high_water_mark {
        Some(m) => seq![row_tracking::row_tracking_domain(m)],
        None => Seq::empty(),
    }
}

/// The domain metadata actions of a commit: what the user sets, what the user removes, and what the
/// library itself sets.
pub open spec fn domain_changes_of<D>(
    t: TxnView<D>,
    existing: Map<Seq<char>, Seq<char>>,
    high_water_mark: Option<i64>,
) -> Seq<DomainMetadataView> {
    t.user_domains + tombstones(t.removals, existing) + t.system_domains + opt_row_tracking_domain(
        high_water_mark,
    )
}

/// The domains of a table after actions.
pub open spec fn domains_after(
    existing: Map<Seq<char>, Seq<char>>,
    changes: Seq<DomainMetadataView>,
) -> Map<Seq<char>, Seq<char>>
    decreases changes.len(),
{
    if changes.len() == 0 {
        existing
    } else {
        let front = domains_after(existing, changes.drop_last());
        let c = changes.last();
        if c.removed {
            front.remove(c.domain)
        } else {
            front.insert(c.domain, c.configuration)
        }
    }
}

/// Setting domains that are not removals gives each its configuration and leaves the others alone.
proof fn lemma_additions(
    existing: Map<Seq<char>, Seq<char>>,
    additions: Seq<DomainMetadataView>,
)
    requires
        forall|i: int| 0 <= i < additions.len() ==> !(#[trigger] additions[i]).removed,
        forall|i: int, j: int|
            0 <= i < j < additions.len() ==> (#[trigger] additions[i]).domain != (
            #[trigger] additions[j]).domain,
    ensures
        forall|i: int|
            0 <= i < additions.len() ==> domains_after(existing, additions).dom().contains(
                (#[trigger] additions[i]).domain,
            ) && domains_after(existing, additions)[additions[i].domain]
                == additions[i].configuration,
        forall|d: Seq<char>|
            (forall|i: int| 0 <= i < additions.len() ==> (#[trigger] additions[i]).domain != d)
                ==> (#[trigger] domains_after(existing, additions).dom().contains(d)
                == existing.dom().contains(d) && (existing.dom().contains(d) ==> domains_after(
                existing,
                additions,
            )[d] == existing[d])),
    decreases additions.len(),
{
    if additions.len() > 0 {
        let front = additions.drop_last();
        let n = additions.len() - 1;
        assert forall|i: int| 0 <= i < front.len() implies !(#[trigger] front[i]).removed by {
            assert(front[i] == additions[i]);
        }
        assert forall|i: int, j: int| 0 <= i < j < front.len() implies (#[trigger] front[i]).domain
            != (#[trigger] front[j]).domain by {
            assert(front[i] == additions[i] && front[j] == additions[j]);
        }
        lemma_additions(existing, front);
        let before = domains_after(existing, front);
        let after = domains_after(existing, additions);
        assert(!additions[n].removed);
        assert(after == before.insert(additions[n].domain, additions[n].configuration));
        assert forall|i: int| 0 <= i < additions.len() implies after.dom().contains(
            (#[trigger] additions[i]).domain,
        ) && after[additions[i].domain] == additions[i].configuration by {
            if i < n {
                assert(front[i] == additions[i]);
                assert(before.dom().contains(front[i].domain));
                assert(additions[i].domain != additions[n].domain);
            }
        }
        assert forall|d: Seq<char>|
            (forall|i: int| 0 <= i < additions.len() ==> (#[trigger] additions[i]).domain != d) implies (
        #[trigger] after.dom().contains(d) == existing.dom().contains(d)) && (
        existing.dom().contains(d) ==> after[d] == existing[d]) by {
            assert(additions[n].domain != d);
            assert forall|i: int| 0 <= i < front.len() implies (#[trigger] front[i]).domain != d by {
                assert(front[i] == additions[i]);
            }
            assert(before.dom().contains(d) == existing.dom().contains(d));
        }
    }
}

/// Removing domains leaves those that are not removed alone.
proof fn lemma_tombstones(
    base: Map<Seq<char>, Seq<char>>,
    additions: Seq<DomainMetadataView>,
    removals: Seq<Seq<char>>,
    existing: Map<Seq<char>, Seq<char>>,
)
    ensures
        ({
            let start = domains_after(base, additions);
            let end = domains_after(base, additions + tombstones(removals, existing));
            &&& forall|d: Seq<char>|
                removals.contains(d) && (existing.dom().contains(d) || !start.dom().contains(d))
                    ==> !(#[trigger] end.dom().contains(d))
            &&& forall|d: Seq<char>|
                !removals.contains(d) ==> (#[trigger] end.dom().contains(d))
                    == start.dom().contains(d) && (start.dom().contains(d) ==> end[d] == start[d])
        }),
    decreases removals.len(),
{
    if removals.len() == 0 {
        assert(additions + tombstones(removals, existing) =~= additions);
    } else {
        let front = removals.drop_last();
        lemma_tombstones(base, additions, front, existing);
        let start = domains_after(base, additions);
        let mid = domains_after(base, additions + tombstones(front, existing));
        let end = domains_after(base, additions + tombstones(removals, existing));
        let last = removals.last();
        assert(removals =~= front.push(last));
        assert(forall|d: Seq<char>| removals.contains(d) <==> (front.contains(d) || d == last)) by {
            assert forall|d: Seq<char>| removals.contains(d) implies front.contains(d) || d == last by {
                let i = choose|i: int| 0 <= i < removals.len() && removals[i] == d;
                if i < front.len() {
                    assert(front[i] == d);
                }
            }
            assert forall|d: Seq<char>| front.contains(d) || d == last implies removals.contains(d) by {
                if d == last {
                    assert(removals[removals.len() - 1] == d);
                } else {
                    let i = choose|i: int| 0 <= i < front.len() && front[i] == d;
                    assert(removals[i] == d);
                }
            }
        }
        if existing.dom().contains(last) {
            let c = DomainMetadataView { domain: last, configuration: existing[last], removed: true };
            let all = additions + tombstones(removals, existing);
            assert(all =~= (additions + tombstones(front, existing)).push(c));
            assert(all.drop_last() =~= additions + tombstones(front, existing));
            assert(end == mid.remove(last));
            assert forall|d: Seq<char>|
                removals.contains(d) && (existing.dom().contains(d) || !start.dom().contains(d)) implies !(
            #[trigger] end.dom().contains(d)) by {
                if d != last {
                    assert(!mid.dom().contains(d));
                }
            }
            assert forall|d: Seq<char>| !removals.contains(d) implies (
            #[trigger] end.dom().contains(d)) == start.dom().contains(d) && (start.dom().contains(d)
                ==> end[d] == start[d]) by {
                assert(mid.dom().contains(d) == start.dom().contains(d));
            }
        } else {
            assert(end == mid);
            assert forall|d: Seq<char>|
                removals.contains(d) && (existing.dom().contains(d) || !start.dom().contains(d)) implies !(
            #[trigger] end.dom().contains(d)) by {
                if front.contains(d) {
                    assert(!mid.dom().contains(d));
                } else {
                    assert(mid.dom().contains(d) == start.dom().contains(d));
                }
            }
        }
    }
}

/// A commit that is not refused does to the domains of the table what the user asked for: a domain
/// that is set has its new configuration, a domain that is removed is gone, and every other domain
/// is as before.
pub proof fn domain_changes_take_effect<D>(t: TxnView<D>, existing: Map<Seq<char>, Seq<char>>)
    requires
        domains_fault(t) is None,
        forall|i: int| 0 <= i < t.user_domains.len() ==> !(#[trigger] t.user_domains[i]).removed,
    ensures
        ({
            let after = domains_after(existing, t.user_domains + tombstones(t.removals, existing));
            &&& forall|i: int|
                0 <= i < t.user_domains.len() ==> after.dom().contains(
                    (#[trigger] t.user_domains[i]).domain,
                ) && after[t.user_domains[i].domain] == t.user_domains[i].configuration
            &&& forall|d: Seq<char>| t.removals.contains(d) ==> !(#[trigger] after.dom().contains(d))
            &&& forall|d: Seq<char>|
                !t.removals.contains(d) && (forall|i: int|
                    0 <= i < t.user_domains.len() ==> (#[trigger] t.user_domains[i]).domain != d)
                    ==> (#[trigger] after.dom().contains(d)) == existing.dom().contains(d) && (
                existing.dom().contains(d) ==> after[d] == existing[d])
        }),
{
    let a = t.user_domains;
    let r = t.removals;
    let fault = |i: int| user_domain_fault(a, r, i);
    log_validation::lemma_first_fault(fault, 0, (a.len() + r.len()) as int);
    assert forall|i: int, j: int| 0 <= i < j < a.len() + r.len() implies user_domain_at(a, r, i)
        != user_domain_at(a, r, j) by {
        assert(fault(j) is None);
        assert(!domain_repeats(a, r, j));
    }
    assert forall|i: int, j: int| 0 <= i < j < a.len() implies (#[trigger] a[i]).domain != (
    #[trigger] a[j]).domain by {
        assert(user_domain_at(a, r, i) != user_domain_at(a, r, j));
    }
    lemma_additions(existing, a);
    lemma_tombstones(existing, a, r, existing);
    let start = domains_after(existing, a);
    assert forall|i: int| 0 <= i < a.len() implies !r.contains((#[trigger] a[i]).domain) by {
        if r.contains(a[i].domain) {
            let k = choose|k: int| 0 <= k < r.len() && r[k] == a[i].domain;
            assert(user_domain_at(a, r, i) == a[i].domain);
            assert(user_domain_at(a, r, a.len() + k) == r[k]);
            assert(user_domain_at(a, r, i) != user_domain_at(a, r, a.len() + k));
        }
    }
    assert forall|d: Seq<char>| r.contains(d) implies existing.dom().contains(d) || !(
    #[trigger] start.dom().contains(d)) by {
        assert forall|i: int| 0 <= i < a.len() implies (#[trigger] a[i]).domain != d by {
            assert(!r.contains(a[i].domain));
        }
    }
    let after = domains_after(existing, a + tombstones(r, existing));
    assert forall|i: int| 0 <= i < a.len() implies after.dom().contains((#[trigger] a[i]).domain)
        && after[a[i].domain] == a[i].configuration by {
        assert(!r.contains(a[i].domain));
        assert(start.dom().contains(a[i].domain));
        assert(after.dom().contains(a[i].domain) == start.dom().contains(a[i].domain));
    }
    assert forall|d: Seq<char>| r.contains(d) implies !(#[trigger] after.dom().contains(d)) by {
        assert(existing.dom().contains(d) || !start.dom().contains(d));
    }
    assert forall|d: Seq<char>|
        !r.contains(d) && (forall|i: int| 0 <= i < a.len() ==> (#[trigger] a[i]).domain != d) implies (
    #[trigger] after.dom().contains(d)) == existing.dom().contains(d) && (existing.dom().contains(d)
        ==> after[d] == existing[d]) by {
        assert(start.dom().contains(d) == existing.dom().contains(d));
    }
}

impl<S, D> Transaction<S, D> {
    /// The domain that the user sets or removes at a position.
    fn user_domain(&self, i: u128) -> (r: &String)
        requires
            i < self.user_domain_metadata_additions@.len() + self.user_domain_removals@.len(),
        ensures
            r@ == user_domain_at(self@.user_domains, self@.removals, i as int),
    {
        let n: u128 = self.user_domain_metadata_additions.len() as u128;
        let m: usize = self.user_domain_removals.len();
        assert(i < n + m);
        if i < n {
            &self.user_domain_metadata_additions[i as usize].domain
        } else {
            &self.user_domain_removals[(i - n) as usize]
        }
    }

    /// Checks the domains that the user sets and removes: the table must support domains, none may
    /// belong to the system, and none may come twice.
    pub fn validate_domain_operations(&self) -> (r: DeltaResult<()>)
        ensures
            error::failure(r) == domains_fault(self@),
    {
        let total: u128 = self.user_domain_metadata_additions.len() as u128
            + self.user_domain_removals.len() as u128;
        if total > 0 && !self.effective_table_config.is_feature_supported(
            &TableFeature::DomainMetadata,
        ) {
            return Err(
                Error::unsupported(
                    "Domain metadata operations require writer version 7 and the 'domainMetadata' writer feature",
                ),
            );
        }
        let ghost a = self@.user_domains;
        let ghost b = self@.removals;
        let ghost fault = |i: int| user_domain_fault(a, b, i);
        let mut i: u128 = 0;
        while i < total
            invariant
                i <= total,
                total == a.len() + b.len(),
                a == self@.user_domains,
                b == self@.removals,
                fault == |i: int| user_domain_fault(a, b, i),
                user_domains_fault(a, b) == log_validation::first_fault(fault, i as int, total as int),
                domains_fault(self@) == user_domains_fault(a, b),
            decreases total - i,
        {
            assert(fault(i as int) == user_domain_fault(a, b, i as int));
            let d = self.user_domain(i);
            if starts_with(d.as_str(), INTERNAL_DOMAIN_PREFIX) {
                return Err(
                    Error::generic(
                        "Cannot modify domains that start with 'delta.' as those are system controlled",
                    ),
                );
            }
            let mut j: u128 = 0;
            while j < i
                invariant
                    j <= i < total,
                    total == a.len() + b.len(),
                    a == self@.user_domains,
                    b == self@.removals,
                    d@ == user_domain_at(a, b, i as int),
                    !text::has_prefix(d@, INTERNAL_DOMAIN_PREFIX@),
                    fault == |i: int| user_domain_fault(a, b, i),
                    fault(i as int) == user_domain_fault(a, b, i as int),
                    user_domains_fault(a, b) == log_validation::first_fault(fault, i as int, total as int),
                    domains_fault(self@) == user_domains_fault(a, b),
                    forall|k: int| 0 <= k < j ==> #[trigger] user_domain_at(a, b, k) != d@,
                decreases i - j,
            {
                if same_text(self.user_domain(j).as_str(), d.as_str()) {
                    assert(domain_repeats(a, b, i as int)) by {
                        assert(user_domain_at(a, b, j as int) == user_domain_at(a, b, i as int));
                    }
                    return Err(
                        Error::Generic(
                            text3(
                                "Metadata for domain ",
                                d.as_str(),
                                " already specified in this transaction",
                            ),
                        ),
                    );
                }
                j += 1;
            }
            i += 1;
        }
        Ok(())
    }

    /// The domain metadata actions of the commit, given the configurations that the domains of the
    /// table have and the highest row identifier after the commit.
    pub fn generate_domain_metadata_actions(
        &self,
        existing: &StringMap<String>,
        high_water_mark: Option<i64>,
    ) -> (r: DeltaResult<Vec<DomainMetadata>>)
        ensures
            domains_fault(self@) matches Some(e) ==> error::failure(r) == Some(e),
            domains_fault(self@) is None ==> (r matches Ok(v) && actions::domains_view(v@)
                == domain_changes_of(self@, existing@, high_water_mark)),
    {
        if let Err(e) = self.validate_domain_operations() {
            return Err(e);
        }
        let mut out: Vec<DomainMetadata> = Vec::new();
        assert(actions::domains_view(out@) =~= Seq::<DomainMetadataView>::empty());
        append_domains(&mut out, &self.user_domain_metadata_additions);
        let ghost user = self@.user_domains;
        assert(actions::domains_view(out@) =~= user);
        let ghost removals = self@.removals;
        let mut i: usize = 0;
        assert(removals.take(0) =~= Seq::<Seq<char>>::empty());
        assert(user + tombstones(removals.take(0), existing@) =~= user);
        while i < self.user_domain_removals.len()
            invariant
                i <= self.user_domain_removals@.len(),
                removals == text::texts(self.user_domain_removals@),
                actions::domains_view(out@) == user + tombstones(removals.take(i as int), existing@),
            decreases self.user_domain_removals.len() - i,
        {
            let ghost before = actions::domains_view(out@);
            assert(removals.take(i + 1).drop_last() =~= removals.take(i as int));
            assert(removals.take(i + 1).last() == removals[i as int]);
            let d = &self.user_domain_removals[i];
            if let Some(configuration) = existing.get(d.as_str()) {
                let action = DomainMetadata::remove(d.clone(), configuration.clone());
                out.push(action);
                assert(actions::domains_view(out@) =~= before.push(action@));
                assert(actions::domains_view(out@) =~= user + tombstones(
                    removals.take(i + 1),
                    existing@,
                ));
            }
            i += 1;
        }
        assert(removals.take(i as int) =~= removals);
        append_domains(&mut out, &self.system_domain_metadata_additions);
        if let Some(m) = high_water_mark {
            let ghost before = actions::domains_view(out@);
            let action = row_tracking_domain_metadata(m);
            out.push(action);
            assert(actions::domains_view(out@) =~= before.push(action@));
            assert(actions::domains_view(out@) =~= domain_changes_of(self@, existing@, high_water_mark));
        } else {
            assert(actions::domains_view(out@) =~= domain_changes_of(self@, existing@, high_water_mark));
        }
        Ok(out)
    }
}

/// Appends copies of actions to a list.
fn append_domains(out: &mut Vec<DomainMetadata>, more: &Vec<DomainMetadata>)
    ensures
        actions::domains_view(final(out)@) == actions::domains_view(old(out)@) + actions::domains_view(more@),
{
    let ghost start = actions::domains_view(out@);
    let ghost all = actions::domains_view(more@);
    let mut i: usize = 0;
    assert(start + all.take(0) =~= start);
    while i < more.len()
        invariant
            i <= more@.len(),
            all == actions::domains_view(more@),
            actions::domains_view(out@) == start + all.take(i as int),
        decreases more.len() - i,
    {
        let ghost before = actions::domains_view(out@);
        let action = more[i].clone();
        out.push(action);
        assert(actions::domains_view(out@) =~= before.push(action@));
        assert(actions::domains_view(out@) =~= start + all.take(i + 1));
        i += 1;
    }
    assert(all.take(i as int) =~= all);
}

} // verus!
