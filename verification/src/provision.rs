//! The shared resources of a run: the network-access policy and the key pair.

use vstd::prelude::*;
use rand::Rng;

verus! {

/// One inbound rule of the network-access policy.
pub struct IngressRule {
    pub protocol: String,
    pub from_port: i64,
    pub to_port: i64,
    pub cidr: String,
}

impl IngressRule {
    /// The rule as plain values: protocol, first port, last port, address range.
    pub open spec fn view(&self) -> (Seq<char>, int, int, Seq<char>) {
        (self.protocol@, self.from_port as int, self.to_port as int, self.cidr@)
    }
}

/// A letter of either case or a digit, in ASCII.
pub open spec fn is_alphanumeric(c: char) -> bool {
    ('A' <= c && c <= 'Z') || ('a' <= c && c <= 'z') || ('0' <= c && c <= '9')
}

/// Every character of `s` is an ASCII letter or digit.
pub open spec fn all_alphanumeric(s: Seq<char>) -> bool {
    forall|i: int| 0 <= i < s.len() ==> is_alphanumeric(#[trigger] s[i])
}

/// `name` is `prefix` followed by `n` random letters and digits.
pub open spec fn is_fresh_name(name: Seq<char>, prefix: Seq<char>, n: nat) -> bool {
    &&& name.len() == prefix.len() + n
    &&& name.subrange(0, prefix.len() as int) == prefix
    &&& all_alphanumeric(name.subrange(prefix.len() as int, name.len() as int))
}

/// Draws `n` samples of `rand::distributions::Alphanumeric` from
/// `rand::thread_rng()` and collects them into a string. Trusted: the string
/// has `n` characters, each taken from the sixty-two ASCII letters and digits
/// that the distribution samples from. Which ones is left open.
#[verifier::external_body]
fn random_alphanumeric(n: usize) -> (s: String)
    ensures
        s@.len() == n,
        all_alphanumeric(s@),
{
    rand::thread_rng().sample_iter(&rand::distributions::Alphanumeric).take(n).map(char::from).collect()
}

/// Puts a random suffix behind a prefix.
pub fn with_suffix(prefix: &str, suffix: &str) -> (name: String)
    ensures
        name@ == prefix@ + suffix@,
{
    String::from_str(prefix).concat(suffix)
}

/// A fresh name for the network-access policy of one run.
pub fn security_group_name() -> (name: String)
    ensures
        is_fresh_name(name@, "burst_security_"@, 10),
{
    let suffix = random_alphanumeric(10);
    let name = with_suffix("burst_security_", suffix.as_str());
    proof {
        let p = "burst_security_"@;
        assert(name@.subrange(0, p.len() as int) =~= p);
        assert(name@.subrange(p.len() as int, name@.len() as int) =~= suffix@);
    }
    name
}

/// A fresh name for the key pair of one run.
pub fn key_pair_name() -> (name: String)
    ensures
        is_fresh_name(name@, "burst_key_"@, 10),
{
    let suffix = random_alphanumeric(10);
    let name = with_suffix("burst_key_", suffix.as_str());
    proof {
        let p = "burst_key_"@;
        assert(name@.subrange(0, p.len() as int) =~= p);
        assert(name@.subrange(p.len() as int, name@.len() as int) =~= suffix@);
    }
    name
}

/// The text that describes the policy to the control plane.
pub fn security_group_description() -> (text: String)
    ensures
        text@ == "Temporary access groups for burst vms"@,
{
    String::from_str("Temporary access groups for burst vms")
}

/// The inbound rules of the policy, in the order in which they are authorized:
/// remote shell from anywhere, then every port among the fleet's private
/// addresses.
pub fn ingress_rules() -> (rules: Vec<IngressRule>)
    ensures
        rules@.len() == 2,
        rules@[0]@ == ("tcp"@, 22int, 22int, "0.0.0.0/0"@),
        rules@[1]@ == ("tcp"@, 0int, 65535int, "172.31.0.0/16"@),
{
    let mut rules: Vec<IngressRule> = Vec::new();
    rules.push(IngressRule {
        protocol: String::from_str("tcp"),
        from_port: 22,
        to_port: 22,
        cidr: String::from_str("0.0.0.0/0"),
    });
    rules.push(IngressRule {
        protocol: String::from_str("tcp"),
        from_port: 0,
        to_port: 65535,
        cidr: String::from_str("172.31.0.0/16"),
    });
    rules
}

} // verus!
