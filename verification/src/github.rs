//! The event model, the rule matcher and the dispatch planner.
//!
//! One incoming delivery is matched against every configured rule, in
//! configuration order; every rule that matches contributes its whole
//! command chain to the dispatch plan, so one event can fan out to
//! several independent automations.

use vstd::prelude::*;
use vstd::string::StrSliceExecFns;
use crate::config::ConfigSite;
use crate::signature::check_signature_sha256;
use crate::signature::signature_accepted;

verus! {

/// The fields parsed from the JSON body of a delivery.
pub struct GithubPayload {
    pub repository: GithubRequestDataRepository,
    pub _ref: Option<String>,
}

/// The repository the delivery speaks of.
pub struct GithubRequestDataRepository {
    pub full_name: String,
}

/// One delivery, as the rule engine sees it: the exact wire bytes of
/// the body (signature verification runs on these, never on a
/// re-serialized form), the fields parsed from them, and the two
/// required header values.
pub struct IncomingEvent {
    pub raw_body: Vec<u8>,
    pub payload: GithubPayload,
    pub event_type: String,
    pub signature: String,
}

/// When a rule matches an event. Four predicates, all must hold:
/// - secret: an empty secret skips verification outright (any caller
///   can then trigger the rule); otherwise the signature header must
///   authenticate the raw body under the secret;
/// - name: an empty name matches every repository; otherwise it must
///   equal the repository's full name exactly;
/// - event: an absent filter matches every event type; a present one
///   must equal the event type exactly;
/// - ref: rejects only when rule and event both carry a ref and they
///   differ. A rule with a ref filter still fires on an event without
///   a ref: a deliberate pass-through.
pub open spec fn spec_rule_matches(rule: ConfigSite, event: IncomingEvent) -> bool {
    &&& rule.password@.len() == 0 || signature_accepted(
        event.raw_body@,
        rule.password@,
        event.signature@,
    )
    &&& rule.name@.len() == 0 || rule.name@ == event.payload.repository.full_name@
    &&& match rule.event {
        Some(config_event) => config_event@ == event.event_type@,
        None => true,
    }
    &&& match (rule._ref, event.payload._ref) {
        (Some(config_ref), Some(github_ref)) => config_ref@ == github_ref@,
        _ => true,
    }
}

/// Decides whether one rule matches one event, short-circuiting on the
/// first failing predicate.
pub fn rule_matches(rule: &ConfigSite, event: &IncomingEvent) -> (r: bool)
    ensures
        r == spec_rule_matches(*rule, *event),
{
    if !rule.password.as_str().is_empty() && !check_signature_sha256(
        &event.raw_body,
        &rule.password,
        &event.signature,
    ) {
        return false;
    }
    if !rule.name.as_str().is_empty() && !(rule.name == event.payload.repository.full_name) {
        return false;
    }
    match &rule.event {
        Some(config_event) => {
            if !(*config_event == event.event_type) {
                return false;
            }
        },
        None => {},
    }
    match (&rule._ref, &event.payload._ref) {
        (Some(config_ref), Some(github_ref)) => {
            if !(*config_ref == *github_ref) {
                return false;
            }
        },
        _ => {},
    }
    true
}

/// The commands a rule set triggers for an event: the command chains
/// of the matching rules, concatenated in configuration order.
pub open spec fn spec_matched_commands(rules: Seq<ConfigSite>, event: IncomingEvent) -> Seq<String>
    decreases rules.len(),
{
    if rules.len() == 0 {
        Seq::empty()
    } else {
        (if spec_rule_matches(rules[0], event) {
            rules[0].cmds@
        } else {
            Seq::empty()
        }) + spec_matched_commands(rules.drop_first(), event)
    }
}

/// Plans one dispatch: walks every rule in configuration order, never
/// stopping at the first match, and collects the command chains of all
/// matching rules.
pub fn dispatch_plan(rules: &Vec<ConfigSite>, event: &IncomingEvent) -> (plan: Vec<String>)
    ensures
        plan@ == spec_matched_commands(rules@, *event),
{
    let mut plan: Vec<String> = Vec::new();
    let mut i: usize = 0;
    proof {
        assert(rules@.skip(0) =~= rules@);
        assert(Seq::<String>::empty() + spec_matched_commands(rules@, *event)
            =~= spec_matched_commands(rules@, *event));
    }
    while i < rules.len()
        invariant
            i <= rules@.len(),
            spec_matched_commands(rules@, *event) == plan@ + spec_matched_commands(
                rules@.skip(i as int),
                *event,
            ),
        decreases rules@.len() - i,
    {
        proof {
            assert(rules@.skip(i as int).drop_first() =~= rules@.skip(i + 1));
            assert(rules@.skip(i as int)[0] == rules@[i as int]);
        }
        if rule_matches(&rules[i], event) {
            let ghost plan_before = plan@;
            let cmds = &rules[i].cmds;
            let mut j: usize = 0;
            while j < cmds.len()
                invariant
                    j <= cmds@.len(),
                    plan@ == plan_before + cmds@.take(j as int),
                decreases cmds@.len() - j,
            {
                plan.push(cmds[j].clone());
                proof {
                    assert(plan@ =~= plan_before + cmds@.take(j + 1));
                }
                j += 1;
            }
            proof {
                assert(cmds@.take(cmds@.len() as int) =~= cmds@);
                assert(plan@ + spec_matched_commands(rules@.skip(i + 1), *event)
                    =~= plan_before + (rules@[i as int].cmds@ + spec_matched_commands(
                    rules@.skip(i + 1),
                    *event,
                )));
            }
        } else {
            proof {
                assert(plan@ + spec_matched_commands(rules@.skip(i + 1), *event) =~= plan@
                    + (Seq::<String>::empty() + spec_matched_commands(rules@.skip(i + 1), *event)));
            }
        }
        i += 1;
    }
    proof {
        assert(rules@.skip(rules@.len() as int) =~= Seq::<ConfigSite>::empty());
        assert(plan@ + Seq::<String>::empty() =~= plan@);
    }
    plan
}

/// A rule with an empty name, an empty secret, no event filter and no
/// ref filter matches every event.
pub proof fn lemma_open_rule_matches_all(rule: ConfigSite, event: IncomingEvent)
    requires
        rule.name@.len() == 0,
        rule.password@.len() == 0,
        rule.event is None,
        rule._ref is None,
    ensures
        spec_rule_matches(rule, event),
{
}

/// A rule with an event-type filter never matches an event of a
/// different type.
pub proof fn lemma_event_filter_rejects(rule: ConfigSite, event: IncomingEvent)
    requires
        rule.event matches Some(config_event) && config_event@ != event.event_type@,
    ensures
        !spec_rule_matches(rule, event),
{
}

/// Against an event that carries no ref, a rule's ref filter plays no
/// part: the rule matches exactly as the same rule without the filter
/// would. The filter rejects only when both sides carry a ref.
pub proof fn lemma_ref_filter_passthrough(rule: ConfigSite, event: IncomingEvent)
    requires
        event.payload._ref is None,
    ensures
        spec_rule_matches(rule, event) == spec_rule_matches(
            ConfigSite { _ref: None, ..rule },
            event,
        ),
{
}

/// When two configured rules both match one event, both command chains
/// are planned: the first rule's whole chain, then the second's.
pub proof fn lemma_two_matching_rules_both_run(
    first: ConfigSite,
    second: ConfigSite,
    event: IncomingEvent,
)
    requires
        spec_rule_matches(first, event),
        spec_rule_matches(second, event),
    ensures
        spec_matched_commands(seq![first, second], event) == first.cmds@ + second.cmds@,
{
    let rules = seq![first, second];
    assert(rules.drop_first() =~= seq![second]);
    assert(seq![second].drop_first() =~= Seq::<ConfigSite>::empty());
    assert(seq![second].len() == 1 && seq![second][0] == second);
    assert(rules.len() == 2 && rules[0] == first);
    assert(spec_matched_commands(Seq::<ConfigSite>::empty(), event) == Seq::<String>::empty());
    assert(spec_matched_commands(seq![second], event) == second.cmds@ + Seq::<String>::empty());
    assert(second.cmds@ + Seq::<String>::empty() =~= second.cmds@);
    assert(spec_matched_commands(rules, event) == first.cmds@ + second.cmds@);
}

} // verus!
