//! Ready-made proposal kinds for common governance actions, with the title
//! and description each one generates.

use vstd::prelude::*;
use vstd::string::*;
use crate::digest::{decimal_of, push_decimal};
use crate::governance::VotingMethod;

verus! {

/// Governance parameters a proposal may change.
#[derive(Debug, Clone, Copy, PartialEq, Eq, Structural)]
pub enum GovernanceParameter {
    VotingPeriod,
    QuorumBps,
    ThresholdBps,
    TimelockPeriod,
}

/// What an issuer-management proposal does.
#[derive(Debug, Clone, Copy, PartialEq, Eq, Structural)]
pub enum IssuerAction {
    Add,
    Remove,
}

/// Well-known proposal kinds.
#[allow(inconsistent_fields)]
#[derive(Debug)]
pub enum ProposalTemplate {
    /// Spend funds from the treasury to a recipient.
    TreasurySpend { recipient: String, amount: u128, denom: String, category: String, memo: String },
    /// Change a governance parameter.
    ParameterChange { parameter: GovernanceParameter, new_value: u64, rationale: String },
    /// Fund a grant application already submitted.
    GrantFunding { grant_id: u64, total_funding: u128, denom: String },
    /// Add or remove a credential issuer.
    IssuerManagement { action: IssuerAction, issuer_address: String, justification: String },
    /// Change an emission phase's rate.
    EmissionUpdate { phase_index: u64, new_rate_per_block: u128, rationale: String },
    /// Emergency action.
    Emergency { action: String, description: String },
    /// Free-form signalling proposal.
    TextProposal { summary: String },
}

/// Display and indexing hints attached to a template.
#[derive(Debug)]
pub struct TemplateMetadata {
    pub template: ProposalTemplate,
    pub suggested_voting_method: VotingMethod,
    /// Recommended minimum voting period in blocks; zero means the default.
    pub min_voting_period: u64,
    pub elevated_quorum: bool,
}

pub open spec fn parameter_name(p: GovernanceParameter) -> Seq<char> {
    match p {
        GovernanceParameter::VotingPeriod => "VotingPeriod"@,
        GovernanceParameter::QuorumBps => "QuorumBps"@,
        GovernanceParameter::ThresholdBps => "ThresholdBps"@,
        GovernanceParameter::TimelockPeriod => "TimelockPeriod"@,
    }
}

pub open spec fn action_name(a: IssuerAction) -> Seq<char> {
    match a {
        IssuerAction::Add => "Add"@,
        IssuerAction::Remove => "Remove"@,
    }
}

fn parameter_str(p: GovernanceParameter) -> (r: &'static str)
    ensures
        r@ == parameter_name(p),
{
    match p {
        GovernanceParameter::VotingPeriod => "VotingPeriod",
        GovernanceParameter::QuorumBps => "QuorumBps",
        GovernanceParameter::ThresholdBps => "ThresholdBps",
        GovernanceParameter::TimelockPeriod => "TimelockPeriod",
    }
}

fn action_str(a: IssuerAction) -> (r: &'static str)
    ensures
        r@ == action_name(a),
{
    match a {
        IssuerAction::Add => "Add",
        IssuerAction::Remove => "Remove",
    }
}

pub open spec fn dec(n: u128) -> Seq<char> {
    decimal_of(n as nat)
}

impl ProposalTemplate {
    pub open spec fn label_spec(&self) -> Seq<char> {
        match self {
            ProposalTemplate::TreasurySpend { .. } => "Treasury Spend"@,
            ProposalTemplate::ParameterChange { .. } => "Parameter Change"@,
            ProposalTemplate::GrantFunding { .. } => "Grant Funding"@,
            ProposalTemplate::IssuerManagement { .. } => "Issuer Management"@,
            ProposalTemplate::EmissionUpdate { .. } => "Emission Update"@,
            ProposalTemplate::Emergency { .. } => "Emergency Action"@,
            ProposalTemplate::TextProposal { .. } => "Text / Signal"@,
        }
    }

    /// Human-readable name of the template's kind.
    pub fn label(&self) -> (r: &'static str)
        ensures
            r@ == self.label_spec(),
    {
        match self {
            ProposalTemplate::TreasurySpend { .. } => "Treasury Spend",
            ProposalTemplate::ParameterChange { .. } => "Parameter Change",
            ProposalTemplate::GrantFunding { .. } => "Grant Funding",
            ProposalTemplate::IssuerManagement { .. } => "Issuer Management",
            ProposalTemplate::EmissionUpdate { .. } => "Emission Update",
            ProposalTemplate::Emergency { .. } => "Emergency Action",
            ProposalTemplate::TextProposal { .. } => "Text / Signal",
        }
    }

    pub open spec fn title_spec(&self) -> Seq<char> {
        match self {
            ProposalTemplate::TreasurySpend { recipient, amount, denom, .. } =>
                "Spend "@ + dec(*amount) + " "@ + denom@ + " to "@ + recipient@,
            ProposalTemplate::ParameterChange { parameter, new_value, .. } =>
                "Set "@ + parameter_name(*parameter) + " to "@ + dec(*new_value as u128),
            ProposalTemplate::GrantFunding { grant_id, total_funding, denom } =>
                "Fund grant #"@ + dec(*grant_id as u128) + " with "@ + dec(*total_funding) + " "@ + denom@,
            ProposalTemplate::IssuerManagement { action, issuer_address, .. } =>
                action_name(*action) + " issuer "@ + issuer_address@,
            ProposalTemplate::EmissionUpdate { phase_index, new_rate_per_block, .. } =>
                "Update phase "@ + dec(*phase_index as u128) + " emission to "@ + dec(*new_rate_per_block) + " /block"@,
            ProposalTemplate::Emergency { action, .. } => "EMERGENCY: "@ + action@,
            ProposalTemplate::TextProposal { summary } => "Signal: "@ + summary@,
        }
    }

    /// A title generated from the template's fields.
    pub fn auto_title(&self) -> (r: String)
        ensures
            r@ == self.title_spec(),
    {
        match self {
            ProposalTemplate::TreasurySpend { recipient, amount, denom, .. } => {
                let mut r = String::from_str("Spend ");
                push_decimal(&mut r, *amount);
                r.append(" ");
                r.append(denom.as_str());
                r.append(" to ");
                r.append(recipient.as_str());
                r
            },
            ProposalTemplate::ParameterChange { parameter, new_value, .. } => {
                let mut r = String::from_str("Set ");
                r.append(parameter_str(*parameter));
                r.append(" to ");
                push_decimal(&mut r, *new_value as u128);
                r
            },
            ProposalTemplate::GrantFunding { grant_id, total_funding, denom } => {
                let mut r = String::from_str("Fund grant #");
                push_decimal(&mut r, *grant_id as u128);
                r.append(" with ");
                push_decimal(&mut r, *total_funding);
                r.append(" ");
                r.append(denom.as_str());
                r
            },
            ProposalTemplate::IssuerManagement { action, issuer_address, .. } => {
                let mut r = String::from_str(action_str(*action));
                r.append(" issuer ");
                r.append(issuer_address.as_str());
                r
            },
            ProposalTemplate::EmissionUpdate { phase_index, new_rate_per_block, .. } => {
                let mut r = String::from_str("Update phase ");
                push_decimal(&mut r, *phase_index as u128);
                r.append(" emission to ");
                push_decimal(&mut r, *new_rate_per_block);
                r.append(" /block");
                r
            },
            ProposalTemplate::Emergency { action, .. } => {
                let mut r = String::from_str("EMERGENCY: ");
                r.append(action.as_str());
                r
            },
            ProposalTemplate::TextProposal { summary } => {
                let mut r = String::from_str("Signal: ");
                r.append(summary.as_str());
                r
            },
        }
    }

    pub open spec fn description_spec(&self) -> Seq<char> {
        match self {
            ProposalTemplate::TreasurySpend { recipient, amount, denom, category, memo } =>
                "Authorize spending "@ + dec(*amount) + " "@ + denom@ + " from the treasury to "@ + recipient@
                    + ".\nCategory: "@ + category@ + "\nMemo: "@ + memo@,
            ProposalTemplate::ParameterChange { parameter, new_value, rationale } =>
                "Change governance parameter "@ + parameter_name(*parameter) + " to "@ + dec(*new_value as u128)
                    + ".\nRationale: "@ + rationale@,
            ProposalTemplate::GrantFunding { grant_id, total_funding, denom } =>
                "Approve funding of "@ + dec(*total_funding) + " "@ + denom@ + " for grant application #"@
                    + dec(*grant_id as u128) + "."@,
            ProposalTemplate::IssuerManagement { action, issuer_address, justification } =>
                action_name(*action) + " credential issuer "@ + issuer_address@ + ".\nJustification: "@ + justification@,
            ProposalTemplate::EmissionUpdate { phase_index, new_rate_per_block, rationale } =>
                "Update emission phase "@ + dec(*phase_index as u128) + " rate to "@ + dec(*new_rate_per_block)
                    + " per block.\nRationale: "@ + rationale@,
            ProposalTemplate::Emergency { action, description } =>
                "EMERGENCY ACTION: "@ + action@ + "\n\n"@ + description@,
            ProposalTemplate::TextProposal { summary } => summary@,
        }
    }

    /// A description generated from the template's fields.
    pub fn auto_description(&self) -> (r: String)
        ensures
            r@ == self.description_spec(),
    {
        match self {
            ProposalTemplate::TreasurySpend { recipient, amount, denom, category, memo } => {
                let mut r = String::from_str("Authorize spending ");
                push_decimal(&mut r, *amount);
                r.append(" ");
                r.append(denom.as_str());
                r.append(" from the treasury to ");
                r.append(recipient.as_str());
                r.append(".\nCategory: ");
                r.append(category.as_str());
                r.append("\nMemo: ");
                r.append(memo.as_str());
                r
            },
            ProposalTemplate::ParameterChange { parameter, new_value, rationale } => {
                let mut r = String::from_str("Change governance parameter ");
                r.append(parameter_str(*parameter));
                r.append(" to ");
                push_decimal(&mut r, *new_value as u128);
                r.append(".\nRationale: ");
                r.append(rationale.as_str());
                r
            },
            ProposalTemplate::GrantFunding { grant_id, total_funding, denom } => {
                let mut r = String::from_str("Approve funding of ");
                push_decimal(&mut r, *total_funding);
                r.append(" ");
                r.append(denom.as_str());
                r.append(" for grant application #");
                push_decimal(&mut r, *grant_id as u128);
                r.append(".");
                r
            },
            ProposalTemplate::IssuerManagement { action, issuer_address, justification } => {
                let mut r = String::from_str(action_str(*action));
                r.append(" credential issuer ");
                r.append(issuer_address.as_str());
                r.append(".\nJustification: ");
                r.append(justification.as_str());
                r
            },
            ProposalTemplate::EmissionUpdate { phase_index, new_rate_per_block, rationale } => {
                let mut r = String::from_str("Update emission phase ");
                push_decimal(&mut r, *phase_index as u128);
                r.append(" rate to ");
                push_decimal(&mut r, *new_rate_per_block);
                r.append(" per block.\nRationale: ");
                r.append(rationale.as_str());
                r
            },
            ProposalTemplate::Emergency { action, description } => {
                let mut r = String::from_str("EMERGENCY ACTION: ");
                r.append(action.as_str());
                r.append("\n\n");
                r.append(description.as_str());
                r
            },
            ProposalTemplate::TextProposal { summary } => summary.clone(),
        }
    }
}

} // verus!
