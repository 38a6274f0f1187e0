//! The policies that clients can be checked against.

use crate::limiter::models::PolicyModel;
use crate::limiter::{LimiterError, Policy};
use crate::text::same_text;
use vstd::prelude::*;

verus! {

/// What a list of named policies says; of two with the same name the later one
/// counts.
spec fn named(policies: Seq<(&'static str, Policy)>) -> Map<Seq<char>, PolicyModel>
    decreases policies.len(),
{
    if policies.len() == 0 {
        Map::empty()
    } else {
        named(policies.drop_last()).insert(policies.last().0@, policies.last().1@)
    }
}

/// The policies shipped with the service.
pub open spec fn shipped_policies() -> Map<Seq<char>, PolicyModel> {
    Map::empty().insert(
        "default"@,
        PolicyModel { capacity: 100, refill_tokens: 100, refill_period_ms: 60_000 },
    ).insert(
        "login"@,
        PolicyModel { capacity: 10, refill_tokens: 10, refill_period_ms: 60_000 },
    ).insert(
        "expensive_api"@,
        PolicyModel { capacity: 20, refill_tokens: 20, refill_period_ms: 300_000 },
    )
}

/// Immutable, configuration-backed policies exposed by the API.
#[derive(Clone)]
pub struct PolicyRegistry {
    policies: Vec<(&'static str, Policy)>,
}

impl View for PolicyRegistry {
    type V = Map<Seq<char>, PolicyModel>;

    closed spec fn view(&self) -> Map<Seq<char>, PolicyModel> {
        named(self.policies@)
    }
}

impl PolicyRegistry {
    /// Builds the validated policies shipped with the service.
    pub fn built_in() -> (res: Result<PolicyRegistry, LimiterError>)
        ensures
            res matches Ok(registry) && registry@ == shipped_policies(),
    {
        let mut policies: Vec<(&'static str, Policy)> = Vec::new();
        let ghost before = policies@;
        match Policy::new(100, 100, 60_000) {
            Ok(policy) => policies.push(("default", policy)),
            Err(error) => {
                return Err(error);
            },
        }
        assert(policies@.drop_last() =~= before);
        let ghost before = policies@;
        match Policy::new(10, 10, 60_000) {
            Ok(policy) => policies.push(("login", policy)),
            Err(error) => {
                return Err(error);
            },
        }
        assert(policies@.drop_last() =~= before);
        let ghost before = policies@;
        match Policy::new(20, 20, 300_000) {
            Ok(policy) => policies.push(("expensive_api", policy)),
            Err(error) => {
                return Err(error);
            },
        }
        assert(policies@.drop_last() =~= before);
        let registry = PolicyRegistry { policies };
        assert(registry@ =~= shipped_policies()) by {
            reveal_with_fuel(named, 4);
        }
        Ok(registry)
    }

    pub fn get(&self, name: &str) -> (res: Option<Policy>)
        ensures
            match res {
                Some(policy) => self@.contains_key(name@) && policy@ == self@[name@],
                None => !self@.contains_key(name@),
            },
    {
        let mut i: usize = self.policies.len();
        assert(self.policies@.take(i as int) =~= self.policies@);
        while i > 0
            invariant
                i <= self.policies.len(),
                named(self.policies@.take(i as int)).contains_key(name@) <==> self@.contains_key(
                    name@,
                ),
                self@.contains_key(name@) ==> named(self.policies@.take(i as int))[name@]
                    == self@[name@],
            decreases i,
        {
            assert(self.policies@.take(i as int).drop_last() =~= self.policies@.take(i - 1));
            if same_text(self.policies[i - 1].0, name) {
                return Some(self.policies[i - 1].1);
            }
            i = i - 1;
        }
        None
    }
}

/// Every shipped policy is valid.
pub proof fn law_shipped_policies_are_valid(name: Seq<char>)
    requires
        shipped_policies().contains_key(name),
    ensures
        shipped_policies()[name].valid(),
{
}

/// Every shipped policy has a name that a bucket can be named by.
pub proof fn law_shipped_policies_can_name_buckets(name: Seq<char>)
    requires
        shipped_policies().contains_key(name),
    ensures
        crate::storage::models::policy_name_error(name) is None,
{
    reveal_strlit("default");
    reveal_strlit("login");
    reveal_strlit("expensive_api");
    assert(crate::storage::models::only_policy_chars(name));
    vstd::utf8::is_ascii_chars_encode_utf8(name);
}

/// The service ships three policies: `default` with 100 tokens and as many a minute,
/// `login` with 10 and as many a minute, and `expensive_api` with 20 and as many in
/// five minutes. There is no other.
pub proof fn law_three_policies_are_shipped(
    built: Result<PolicyRegistry, LimiterError>,
    name: &str,
    found: Option<Policy>,
)
    requires
        call_ensures(PolicyRegistry::built_in, (), built),
        built matches Ok(registry) ==> call_ensures(
            PolicyRegistry::get,
            (&registry, name),
            found,
        ),
    ensures
        built is Ok,
        name@ == "default"@ ==> (found matches Some(policy) && policy@.capacity == 100
            && policy@.refill_tokens == 100 && policy@.refill_period_ms == 60_000),
        name@ == "login"@ ==> (found matches Some(policy) && policy@.capacity == 10
            && policy@.refill_tokens == 10 && policy@.refill_period_ms == 60_000),
        name@ == "expensive_api"@ ==> (found matches Some(policy) && policy@.capacity == 20
            && policy@.refill_tokens == 20 && policy@.refill_period_ms == 300_000),
        found is Some ==> name@ == "default"@ || name@ == "login"@ || name@ == "expensive_api"@,
{
    reveal_strlit("default");
    reveal_strlit("login");
    reveal_strlit("expensive_api");
    assert("default"@.len() == 7);
    assert("login"@.len() == 5);
    assert("expensive_api"@.len() == 13);
}

} // verus!
