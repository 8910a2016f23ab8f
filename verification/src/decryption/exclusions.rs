//! User exclusions. Only `destination` exclusions reach nftables: the domain is resolved to
//! addresses and the whole set of excluded addresses is pushed at once. `processus`
//! exclusions are kept (the list shown to the user) but never applied at the network level.

use vstd::prelude::*;

use crate::storage::decryption::{
    exclusion_rows, exclusion_view, list_exclusions as stored_exclusions, with_exclusion, without_exclusion,
};
use crate::storage::{ExclusionRow, StorageHandle};
use crate::shared::{dup_strings, strings_view};
use crate::text::{owned, push_str, str_eq};

use super::helper_backend::HelperBackend;

verus! {

pub const KIND_DESTINATION: &'static str = "destination";

pub const KIND_PROCESS: &'static str = "processus";

/// Name resolution of the domains of destination exclusions (the system's resolver in the
/// application; what it answers depends on the network).
pub trait DomainResolver {
    fn resolve(&self, domain: &str) -> Vec<String>;
}

/// A resolver with fixed answers; unknown domains resolve to nothing.
pub struct StaticResolver {
    pub answers: Vec<(String, Vec<String>)>,
}

impl DomainResolver for StaticResolver {
    /// The addresses of the first answer for `domain`; none for an unknown domain.
    fn resolve(&self, domain: &str) -> (r: Vec<String>)
        ensures
            (exists|k: int|
                0 <= k < self.answers@.len() && (#[trigger] self.answers@[k]).0@ == domain@ && (
                forall|j: int| 0 <= j < k ==> (#[trigger] self.answers@[j]).0@ != domain@)
                    && strings_view(r@) == strings_view(self.answers@[k].1@)) || ((forall|k: int|
                0 <= k < self.answers@.len() ==> (#[trigger] self.answers@[k]).0@ != domain@)
                && r@.len() == 0),
    {
        let mut i: usize = 0;
        while i < self.answers.len()
            invariant
                0 <= i <= self.answers@.len(),
                forall|j: int| 0 <= j < i ==> (#[trigger] self.answers@[j]).0@ != domain@,
            decreases self.answers@.len() - i,
        {
            if str_eq(self.answers[i].0.as_str(), domain) {
                let r = dup_strings(&self.answers[i].1);
                assert(self.answers@[i as int].0@ == domain@);
                return r;
            }
            i += 1;
        }
        Vec::new()
    }
}

/// Name resolution that records each domain asked, with the addresses it resolved to.
pub trait NameResolver {
    /// The domains asked, in order, each with its addresses.
    spec fn spec_asked(&self) -> Seq<(Seq<char>, Seq<Seq<char>>)>;

    fn resolve(&mut self, domain: &str) -> (r: Vec<String>)
        ensures
            final(self).spec_asked() == old(self).spec_asked().push((domain@, strings_view(r@))),
    ;
}

/// A resolver whose every answer is recorded.
pub struct LoggedResolver<R: DomainResolver> {
    resolver: R,
    asked: Ghost<Seq<(Seq<char>, Seq<Seq<char>>)>>,
}

impl<R: DomainResolver> LoggedResolver<R> {
    pub closed spec fn spec_inner(&self) -> R {
        self.resolver
    }

    pub fn new(resolver: R) -> (s: LoggedResolver<R>)
        ensures
            s.spec_inner() == resolver,
            s.spec_asked().len() == 0,
    {
        LoggedResolver { resolver, asked: Ghost(Seq::empty()) }
    }
}

impl<R: DomainResolver> NameResolver for LoggedResolver<R> {
    closed spec fn spec_asked(&self) -> Seq<(Seq<char>, Seq<Seq<char>>)> {
        self.asked@
    }

    fn resolve(&mut self, domain: &str) -> (r: Vec<String>) {
        let r = self.resolver.resolve(domain);
        proof {
            self.asked@ = self.asked@.push((domain@, strings_view(r@)));
        }
        r
    }
}

/// The domains of resolutions, in order.
pub open spec fn asked_domains(asked: Seq<(Seq<char>, Seq<Seq<char>>)>) -> Seq<Seq<char>> {
    asked.map_values(|a: (Seq<char>, Seq<Seq<char>>)| a.0)
}

/// The addresses of resolutions, in order.
pub open spec fn asked_addresses(asked: Seq<(Seq<char>, Seq<Seq<char>>)>) -> Seq<Seq<Seq<char>>> {
    asked.map_values(|a: (Seq<char>, Seq<Seq<char>>)| a.1)
}

/// The resolutions `asked` of the destination exclusions of `rows`, then the push of the
/// excluded set: every destination domain resolved once, in the order of the exclusions, and
/// the set handed to the helper is all their addresses joined in that order.
pub open spec fn destinations_applied(
    rows: Seq<(Seq<char>, Seq<char>)>,
    asked: Seq<(Seq<char>, Seq<Seq<char>>)>,
    pushed: Seq<Seq<char>>,
) -> bool {
    asked_domains(asked) == destination_names(rows) && pushed == concat_all(asked_addresses(asked))
}

/// The names of the destination exclusions, in order.
pub open spec fn destination_names(rows: Seq<(Seq<char>, Seq<char>)>) -> Seq<Seq<char>>
    decreases rows.len(),
{
    if rows.len() == 0 {
        Seq::empty()
    } else {
        let r = destination_names(rows.drop_last());
        if rows.last().1 == "destination"@ {
            r.push(rows.last().0)
        } else {
            r
        }
    }
}

/// Whether an exclusion of that name is a destination exclusion.
pub open spec fn is_destination(rows: Seq<(Seq<char>, Seq<char>)>, name: Seq<char>) -> bool {
    exists|i: int| 0 <= i < rows.len() && #[trigger] rows[i] == (name, "destination"@)
}

/// The address lists joined end to end, in order.
pub open spec fn concat_all(lists: Seq<Seq<Seq<char>>>) -> Seq<Seq<char>>
    decreases lists.len(),
{
    if lists.len() == 0 {
        Seq::empty()
    } else {
        concat_all(lists.drop_last()) + lists.last()
    }
}

/// Resolves every destination exclusion, in their order, and replaces the excluded set with
/// all their addresses in one push. The result is the helper's.
pub fn apply_destination_exclusions<H: HelperBackend + ?Sized, R: NameResolver + ?Sized>(
    storage: &StorageHandle,
    helper: &mut H,
    resolver: &mut R,
) -> (r: Result<(), String>)
    ensures
        final(helper).spec_redirect() == old(helper).spec_redirect(),
        exists|asked: Seq<(Seq<char>, Seq<Seq<char>>)>, pushed: Seq<Seq<char>>|
            #[trigger] destinations_applied(exclusion_rows(*storage), asked, pushed)
                && final(resolver).spec_asked() == old(resolver).spec_asked() + asked
                && final(helper).spec_exclusion_requests() == old(
                helper,
            ).spec_exclusion_requests().push((pushed, r is Ok)),
{
    let rows = match stored_exclusions(storage) {
        Ok(rows) => rows,
        Err(error) => {
            let mut m = owned("lecture des exclusions échouée: ");
            push_str(&mut m, error.message.as_str());
            return Err(m);
        },
    };
    let ghost rv = rows@.map_values(|e: ExclusionRow| exclusion_view(e));
    let ghost asked0 = resolver.spec_asked();
    let mut ips: Vec<String> = Vec::new();
    let ghost mut asked: Seq<(Seq<char>, Seq<Seq<char>>)> = Seq::empty();
    let mut i: usize = 0;
    assert(rv.take(0) =~= Seq::<(Seq<char>, Seq<char>)>::empty());
    assert(strings_view(ips@) =~= concat_all(asked_addresses(asked)));
    assert(asked_domains(asked) =~= Seq::<Seq<char>>::empty());
    assert(resolver.spec_asked() =~= asked0 + asked);
    while i < rows.len()
        invariant
            0 <= i <= rows@.len(),
            rv == rows@.map_values(|e: ExclusionRow| exclusion_view(e)),
            strings_view(ips@) == concat_all(asked_addresses(asked)),
            asked_domains(asked) == destination_names(rv.take(i as int)),
            resolver.spec_asked() == asked0 + asked,
        decreases rows@.len() - i,
    {
        let ghost before = ips@;
        assert(rv.take(i + 1).drop_last() =~= rv.take(i as int));
        assert(rv.take(i + 1).last() == exclusion_view(rows@[i as int]));
        if str_eq(rows[i].kind.as_str(), "destination") {
            let mut resolved = resolver.resolve(rows[i].name.as_str());
            let ghost got = strings_view(resolved@);
            ips.append(&mut resolved);
            proof {
                let a2 = asked.push((rows@[i as int].name@, got));
                assert(asked_addresses(a2).drop_last() =~= asked_addresses(asked));
                assert(asked_addresses(a2) =~= asked_addresses(asked).push(got));
                assert(asked_domains(a2) =~= asked_domains(asked).push(rows@[i as int].name@));
                assert(strings_view(ips@) =~= strings_view(before) + got);
                assert(resolver.spec_asked() =~= asked0 + a2);
                asked = a2;
            }
        }
        i += 1;
    }
    assert(rv.take(rows@.len() as int) =~= rv);
    let r = helper.nft_set_exclusions(&ips);
    assert(destinations_applied(exclusion_rows(*storage), asked, strings_view(ips@)));
    r
}

/// Adds an exclusion; a destination exclusion is applied at once.
pub fn add_exclusion<H: HelperBackend, R: NameResolver + ?Sized>(
    storage: &mut StorageHandle,
    helper: &mut H,
    resolver: &mut R,
    name: &str,
    kind: &str,
) -> (r: Result<(), String>)
    ensures
        exclusion_rows(*final(storage)) == with_exclusion(exclusion_rows(*old(storage)), name@, kind@),
        final(storage).flows == old(storage).flows,
        final(helper).spec_redirect() == old(helper).spec_redirect(),
        kind@ != "destination"@ ==> r is Ok && *final(helper) == *old(helper)
            && final(resolver).spec_asked() == old(resolver).spec_asked(),
        kind@ == "destination"@ ==> exists|asked: Seq<(Seq<char>, Seq<Seq<char>>)>, pushed: Seq<Seq<char>>|
            #[trigger] destinations_applied(exclusion_rows(*final(storage)), asked, pushed)
                && final(resolver).spec_asked() == old(resolver).spec_asked() + asked
                && final(helper).spec_exclusion_requests() == old(
                helper,
            ).spec_exclusion_requests().push((pushed, r is Ok)),
{
    match crate::storage::decryption::add_exclusion(storage, name, kind) {
        Ok(()) => {},
        Err(error) => {
            let mut m = owned("persistance de l'exclusion échouée: ");
            push_str(&mut m, error.message.as_str());
            return Err(m);
        },
    }
    if str_eq(kind, "destination") {
        apply_destination_exclusions(storage, helper, resolver)
    } else {
        Ok(())
    }
}

/// Removes every exclusion of that name; the excluded set is pushed again when one of them
/// was a destination exclusion. Removing an unknown name changes nothing.
pub fn remove_exclusion<H: HelperBackend, R: NameResolver + ?Sized>(
    storage: &mut StorageHandle,
    helper: &mut H,
    resolver: &mut R,
    name: &str,
) -> (r: Result<(), String>)
    ensures
        exclusion_rows(*final(storage)) == without_exclusion(exclusion_rows(*old(storage)), name@),
        final(storage).flows == old(storage).flows,
        final(helper).spec_redirect() == old(helper).spec_redirect(),
        !is_destination(exclusion_rows(*old(storage)), name@) ==> r is Ok && *final(helper)
            == *old(helper) && final(resolver).spec_asked() == old(resolver).spec_asked(),
        is_destination(exclusion_rows(*old(storage)), name@) ==> exists|
            asked: Seq<(Seq<char>, Seq<Seq<char>>)>,
            pushed: Seq<Seq<char>>,
        |
            #[trigger] destinations_applied(exclusion_rows(*final(storage)), asked, pushed)
                && final(resolver).spec_asked() == old(resolver).spec_asked() + asked
                && final(helper).spec_exclusion_requests() == old(
                helper,
            ).spec_exclusion_requests().push((pushed, r is Ok)),
{
    proof {
        reveal_strlit("destination");
    }
    let ghost rows0 = exclusion_rows(*storage);
    let was_destination = match stored_exclusions(storage) {
        Ok(rows) => {
            let mut found = false;
            let mut i: usize = 0;
            while i < rows.len()
                invariant
                    rows@.map_values(|e: ExclusionRow| crate::storage::decryption::exclusion_view(e))
                        == rows0,
                    0 <= i <= rows@.len(),
                    found ==> is_destination(rows0, name@),
                    !found ==> forall|j: int| 0 <= j < i ==> #[trigger] rows0[j] != (name@, "destination"@),
                decreases rows@.len() - i,
            {
                assert(rows0[i as int] == crate::storage::decryption::exclusion_view(rows@[i as int]));
                if str_eq(rows[i].name.as_str(), name) && str_eq(rows[i].kind.as_str(), "destination") {
                    assert(rows0[i as int] == (name@, "destination"@));
                    found = true;
                }
                i += 1;
            }
            found
        },
        Err(_) => false,
    };
    match crate::storage::decryption::remove_exclusion(storage, name) {
        Ok(()) => {},
        Err(error) => {
            let mut m = owned("suppression de l'exclusion échouée: ");
            push_str(&mut m, error.message.as_str());
            return Err(m);
        },
    }
    if was_destination {
        apply_destination_exclusions(storage, helper, resolver)
    } else {
        Ok(())
    }
}

/// The exclusions, in the order they were added.
pub fn list_exclusions(storage: &StorageHandle) -> (r: Vec<ExclusionRow>)
    ensures
        r@.map_values(|e: ExclusionRow| crate::storage::decryption::exclusion_view(e))
            == exclusion_rows(*storage),
{
    match stored_exclusions(storage) {
        Ok(rows) => rows,
        Err(_) => Vec::new(),
    }
}

} // verus!
