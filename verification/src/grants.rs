//! Building guards from grant requirements and evaluating them.
//!
//! A guard binds a parsed requirement to one of two rejection shapes. Checking
//! a guard against a caller's claims is a pure membership test: the caller
//! must hold the one permission (`Equal`), at least one (`Any`), or all of
//! them (`All`). A failed check yields a rejection outcome carrying a
//! deterministic human-readable message; rendering turns that outcome either
//! into a plain forbidden response whose body is the message itself, or into a
//! JSON envelope with a fixed error code.

use vstd::prelude::*;
use vstd::string::StringExecFns;
use crate::claims::Claims;
use crate::grants_info::{GrantInfo, GrantOperator, ParseError, perms_view, spec_operator,
    spec_perms, parse_accepts};
use crate::grants_util::AxumGrantsResponse;

verus! {

/// A permission name wrapped in literal quote characters.
pub open spec fn quoted(p: Seq<char>) -> Seq<char> {
    seq!['"'] + p + seq!['"']
}

/// The permission names, each quoted, joined with commas, in source order.
pub open spec fn quoted_join(ps: Seq<Seq<char>>) -> Seq<char>
    decreases ps.len(),
{
    if ps.len() == 0 {
        Seq::empty()
    } else if ps.len() == 1 {
        quoted(ps[0])
    } else {
        quoted_join(ps.drop_last()) + seq![','] + quoted(ps.last())
    }
}

/// The rejection message of a single-permission requirement.
pub open spec fn equal_message(p: Seq<char>) -> Seq<char> {
    "Insufficient permissions, need the permission: "@ + p
}

/// The rejection message of an `Any` requirement.
pub open spec fn any_message(ps: Seq<Seq<char>>) -> Seq<char> {
    "Insufficient permissions, need any permission: "@ + quoted_join(ps)
}

/// The rejection message of an `All` requirement.
pub open spec fn all_message(ps: Seq<Seq<char>>) -> Seq<char> {
    "Insufficient permissions, need all permission: "@ + quoted_join(ps)
}

/// The rejection message a denied check carries, by operator.
pub open spec fn deny_message(op: GrantOperator, ps: Seq<Seq<char>>) -> Seq<char> {
    match op {
        GrantOperator::Equal => equal_message(
            if ps.len() > 0 {
                ps[0]
            } else {
                Seq::empty()
            },
        ),
        GrantOperator::Any => any_message(ps),
        GrantOperator::All => all_message(ps),
    }
}

/// Whether a permission set satisfies a requirement: `Equal` needs its one
/// permission, `Any` at least one of the list, `All` every one of the list.
pub open spec fn requirement_met(op: GrantOperator, ps: Seq<Seq<char>>, held: Set<Seq<char>>) -> bool {
    match op {
        GrantOperator::Equal => ps.len() > 0 && held.contains(ps[0]),
        GrantOperator::Any => exists|i: int| 0 <= i < ps.len() && held.contains(ps[i]),
        GrantOperator::All => forall|i: int| 0 <= i < ps.len() ==> held.contains(ps[i]),
    }
}

/// Why access was denied: the message stating what was required, and whether
/// the custom (JSON envelope) or builtin (plain forbidden) shape renders it.
#[derive(Debug)]
pub struct RejectionOutcome {
    pub message: String,
    pub custom: bool,
}

/// The result of evaluating a guard against a caller's claims.
#[derive(Debug)]
pub enum CheckOutcome {
    Allow,
    Deny(RejectionOutcome),
}

/// A transport-level rejection: a status code and the response body.
#[derive(Debug)]
pub struct RejectionResponse {
    pub status: u16,
    pub body: String,
}

/// A reusable authorization check: a grant requirement bound to a rejection
/// shape. Immutable once built, so one guard serves any number of checks.
#[derive(Debug)]
pub struct Guard {
    pub info: GrantInfo,
    pub is_cus: bool,
}

/// Joins the permission names, each quoted, with commas.
fn quoted_join_exec(perms: &Vec<String>) -> (s: String)
    ensures
        s@ == quoted_join(perms_view(*perms)),
{
    let ghost ps = perms_view(*perms);
    let mut s = String::new();
    let mut i: usize = 0;
    while i < perms.len()
        invariant
            i <= perms@.len(),
            ps == perms_view(*perms),
            s@ == quoted_join(ps.subrange(0, i as int)),
        decreases perms@.len() - i,
    {
        let ghost s0 = s@;
        if i > 0 {
            s.push(',');
        }
        s.push('"');
        s.append(perms[i].as_str());
        s.push('"');
        proof {
            let part = ps.subrange(0, i as int);
            let next = ps.subrange(0, i + 1 as int);
            assert(ps[i as int] == perms@[i as int]@);
            if i == 0 {
                assert(next.len() == 1 && next[0] == ps[0]);
                assert(s@ =~= quoted(ps[0]));
            } else {
                assert(next.drop_last() =~= part);
                assert(next.last() == ps[i as int]);
                assert(s@ =~= quoted_join(part) + seq![','] + quoted(ps[i as int]));
            }
        }
        i += 1;
    }
    proof {
        assert(ps.subrange(0, perms@.len() as int) =~= ps);
    }
    s
}

/// The rejection message for a requirement, exactly as `deny_message` states.
fn build_deny_message(info: &GrantInfo) -> (m: String)
    ensures
        m@ == deny_message(info.operator, perms_view(info.perms)),
{
    match info.operator {
        GrantOperator::Equal => {
            let mut m = String::from_str("Insufficient permissions, need the permission: ");
            if info.perms.len() > 0 {
                m.append(info.perms[0].as_str());
                proof {
                    assert(perms_view(info.perms)[0] == info.perms@[0]@);
                }
            } else {
                proof {
                    assert(m@ + Seq::<char>::empty() =~= m@);
                }
            }
            m
        },
        GrantOperator::Any => {
            let mut m = String::from_str("Insufficient permissions, need any permission: ");
            let tail = quoted_join_exec(&info.perms);
            m.append(tail.as_str());
            m
        },
        GrantOperator::All => {
            let mut m = String::from_str("Insufficient permissions, need all permission: ");
            let tail = quoted_join_exec(&info.perms);
            m.append(tail.as_str());
            m
        },
    }
}

/// Whether the caller holds at least one of the listed permissions; stops at
/// the first match.
fn any_held(perms: &Vec<String>, claims: &Claims) -> (r: bool)
    ensures
        r == exists|i: int|
            0 <= i < perms_view(*perms).len() && claims.perms@.contains(perms_view(*perms)[i]),
{
    let mut i: usize = 0;
    while i < perms.len()
        invariant
            i <= perms@.len(),
            forall|k: int| 0 <= k < i ==> !claims.perms@.contains(perms_view(*perms)[k]),
        decreases perms@.len() - i,
    {
        proof {
            assert(perms_view(*perms)[i as int] == perms@[i as int]@);
        }
        if claims.has_perm(perms[i].as_str()) {
            return true;
        }
        i += 1;
    }
    false
}

/// Whether the caller holds every listed permission; stops at the first miss.
fn all_held(perms: &Vec<String>, claims: &Claims) -> (r: bool)
    ensures
        r == forall|i: int|
            0 <= i < perms_view(*perms).len() ==> claims.perms@.contains(perms_view(*perms)[i]),
{
    let mut i: usize = 0;
    while i < perms.len()
        invariant
            i <= perms@.len(),
            forall|k: int| 0 <= k < i ==> claims.perms@.contains(perms_view(*perms)[k]),
        decreases perms@.len() - i,
    {
        proof {
            assert(perms_view(*perms)[i as int] == perms@[i as int]@);
        }
        if !claims.has_perm(perms[i].as_str()) {
            return false;
        }
        i += 1;
    }
    true
}

impl Guard {
    /// The invariant a guard built from a parsed requirement satisfies.
    pub open spec fn wf(&self) -> bool {
        self.info.wf()
    }

    /// Evaluates the guard against the caller's claims.
    ///
    /// Allows exactly when the claims' permission set satisfies the bound
    /// requirement; otherwise yields the deterministic rejection message,
    /// tagged with the guard's rejection shape.
    pub fn check(&self, claims: &Claims) -> (r: CheckOutcome)
        ensures
            (r is Allow) == requirement_met(
                self.info.operator,
                perms_view(self.info.perms),
                claims.perms@,
            ),
            match r {
                CheckOutcome::Allow => true,
                CheckOutcome::Deny(out) => out.custom == self.is_cus && out.message@
                    == deny_message(self.info.operator, perms_view(self.info.perms)),
            },
    {
        let ok = match self.info.operator {
            GrantOperator::Equal => {
                if self.info.perms.len() > 0 {
                    proof {
                        assert(perms_view(self.info.perms)[0] == self.info.perms@[0]@);
                    }
                    claims.has_perm(self.info.perms[0].as_str())
                } else {
                    false
                }
            },
            GrantOperator::Any => any_held(&self.info.perms, claims),
            GrantOperator::All => all_held(&self.info.perms, claims),
        };
        if ok {
            CheckOutcome::Allow
        } else {
            let message = build_deny_message(&self.info);
            CheckOutcome::Deny(RejectionOutcome { message, custom: self.is_cus })
        }
    }
}

/// Renders a rejection: the builtin shape is a plain forbidden response whose
/// body is the message itself; the custom shape carries the JSON envelope with
/// the fixed error code, delivered with the ordinary success status since the
/// envelope itself signals the error.
pub fn build_into_response_code(is_cus: bool, msg: String) -> (r: RejectionResponse)
    ensures
        r.status == (if is_cus {
            200u16
        } else {
            403u16
        }),
        r.body@ == (if is_cus {
            crate::grants_util::custom_body(msg@)
        } else {
            msg@
        }),
{
    if is_cus {
        let body = AxumGrantsResponse::get_into_response(msg.as_str());
        RejectionResponse { status: 200, body }
    } else {
        RejectionResponse { status: 403, body: msg }
    }
}

/// The guard that requires exactly the one given permission.
pub fn build_equal_code(perm: String, is_cus: bool) -> (g: Guard)
    ensures
        g.info.operator is Equal,
        perms_view(g.info.perms) == seq![perm@],
        g.is_cus == is_cus,
{
    let perms = vec![perm];
    proof {
        assert(perms_view(perms) =~= seq![perms@[0]@]);
    }
    Guard { info: GrantInfo { perms, operator: GrantOperator::Equal }, is_cus }
}

/// The guard that requires at least one of the given permissions.
pub fn build_any_code(perms: Vec<String>, is_cus: bool) -> (g: Guard)
    ensures
        g.info.operator is Any,
        perms_view(g.info.perms) == perms_view(perms),
        g.is_cus == is_cus,
{
    Guard { info: GrantInfo { perms, operator: GrantOperator::Any }, is_cus }
}

/// The guard that requires every one of the given permissions.
pub fn build_all_code(perms: Vec<String>, is_cus: bool) -> (g: Guard)
    ensures
        g.info.operator is All,
        perms_view(g.info.perms) == perms_view(perms),
        g.is_cus == is_cus,
{
    Guard { info: GrantInfo { perms, operator: GrantOperator::All }, is_cus }
}

/// Builds the guard for a well-formed requirement, dispatching on its
/// operator and binding the chosen rejection shape.
pub fn build_guard(info: GrantInfo, is_cus: bool) -> (g: Guard)
    requires
        info.wf(),
    ensures
        g.wf(),
        g.is_cus == is_cus,
        g.info.operator == info.operator,
        perms_view(g.info.perms) == perms_view(info.perms),
{
    let ghost pv = perms_view(info.perms);
    let GrantInfo { mut perms, operator } = info;
    match operator {
        GrantOperator::Equal => {
            let perm = perms.remove(0);
            let g = build_equal_code(perm, is_cus);
            proof {
                assert(perms_view(g.info.perms) =~= pv);
            }
            g
        },
        GrantOperator::Any => build_any_code(perms, is_cus),
        GrantOperator::All => build_all_code(perms, is_cus),
    }
}

/// What setting up a protected operation promises: setup succeeds exactly when
/// the expression parses, and then the guard carries the parsed requirement
/// and the requested rejection shape.
pub open spec fn protect_post(attr: Seq<char>, r: Result<Guard, ParseError>, is_cus: bool) -> bool {
    match r {
        Ok(g) => {
            &&& parse_accepts(attr)
            &&& g.wf()
            &&& g.is_cus == is_cus
            &&& g.info.operator == spec_operator(attr)
            &&& perms_view(g.info.perms) == spec_perms(attr)
        },
        Err(e) => !parse_accepts(attr) && e is EmptySpec,
    }
}

/// Sets up the guard for one protected operation with the builtin rejection
/// shape: parse the permission expression, then bind the requirement.
pub fn protect(attr: &str) -> (r: Result<Guard, ParseError>)
    ensures
        protect_post(attr@, r, false),
{
    match GrantInfo::parse(attr) {
        Ok(info) => Ok(build_guard(info, false)),
        Err(e) => Err(e),
    }
}

/// Sets up the guard for one protected operation with the custom rejection
/// shape (the JSON envelope); otherwise exactly like `protect`.
pub fn protect_diy(attr: &str) -> (r: Result<Guard, ParseError>)
    ensures
        protect_post(attr@, r, true),
{
    match GrantInfo::parse(attr) {
        Ok(info) => Ok(build_guard(info, true)),
        Err(e) => Err(e),
    }
}

} // verus!

