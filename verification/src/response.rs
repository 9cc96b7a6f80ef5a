//! The answers to queries as they travel back: objects with named fields,
//! written without white space.

use vstd::prelude::*;
use vstd::string::*;
use crate::bank::{coins_view, Coin, CoinView};
use crate::bytes::{ascii, push_lit};
use crate::number::{decimal, fixed_point, push_decimal, push_fixed_point};
use crate::staking::{
    delegation_view, delegations_view, validator_view, validators_view, Delegation,
    DelegationView, Validator, ValidatorView,
};
use crate::text::{encode_text, push_text};

verus! {

/// The comma between the items of a list.
pub const COMMA: u8 = 0x2c;

/// Byte strings with a comma between each two of them.
pub open spec fn joined(items: Seq<Seq<u8>>) -> Seq<u8>
    decreases items.len(),
{
    if items.len() == 0 {
        Seq::empty()
    } else if items.len() == 1 {
        items[0]
    } else {
        joined(items.drop_last()) + seq![COMMA] + items.last()
    }
}

/// A coin: its denomination, and its amount as a number between quotes.
pub open spec fn coin_json(coin: CoinView) -> Seq<u8> {
    ascii("{\"denom\":"@) + encode_text(coin.denom) + ascii(",\"amount\":\""@) + decimal(
        coin.amount as nat,
    ) + ascii("\"}"@)
}

/// A delegation: who delegated, to which validator, and how much.
pub open spec fn delegation_json(delegation: DelegationView) -> Seq<u8> {
    ascii("{\"delegator\":"@) + encode_text(delegation.delegator) + ascii(",\"validator\":"@)
        + encode_text(delegation.validator) + ascii(",\"amount\":"@) + coin_json(delegation.amount)
        + ascii("}"@)
}

/// A validator: its address and its three rates, each a fixed-point number
/// between quotes.
pub open spec fn validator_json(validator: ValidatorView) -> Seq<u8> {
    ascii("{\"address\":"@) + encode_text(validator.address) + ascii(",\"commission\":\""@)
        + fixed_point(validator.commission as nat) + ascii("\",\"max_commission\":\""@)
        + fixed_point(validator.max_commission as nat) + ascii("\",\"max_change_rate\":\""@)
        + fixed_point(validator.max_change_rate as nat) + ascii("\"}"@)
}

/// Each coin of a sequence as it is written.
pub open spec fn coin_items(coins: Seq<CoinView>) -> Seq<Seq<u8>> {
    coins.map_values(|c: CoinView| coin_json(c))
}

/// Each delegation of a sequence as it is written.
pub open spec fn delegation_items(delegations: Seq<DelegationView>) -> Seq<Seq<u8>> {
    delegations.map_values(|d: DelegationView| delegation_json(d))
}

/// Each validator of a sequence as it is written.
pub open spec fn validator_items(validators: Seq<ValidatorView>) -> Seq<Seq<u8>> {
    validators.map_values(|v: ValidatorView| validator_json(v))
}

/// The answer to a query for all balances of an address.
pub open spec fn all_balances_response(coins: Seq<CoinView>) -> Seq<u8> {
    ascii("{\"amount\":["@) + joined(coin_items(coins)) + ascii("]}"@)
}

/// The answer to a query for the balance in one denomination.
pub open spec fn balance_response(coin: CoinView) -> Seq<u8> {
    ascii("{\"amount\":"@) + coin_json(coin) + ascii("}"@)
}

/// The answer to a query for the bonded denomination.
pub open spec fn bonded_denom_response(denom: Seq<char>) -> Seq<u8> {
    ascii("{\"denom\":"@) + encode_text(denom) + ascii("}"@)
}

/// The answer to a query for all delegations of a delegator.
pub open spec fn all_delegations_response(delegations: Seq<DelegationView>) -> Seq<u8> {
    ascii("{\"delegations\":["@) + joined(delegation_items(delegations)) + ascii("]}"@)
}

/// The answer to a query for one delegation: the delegation, or `null`.
pub open spec fn delegation_response(delegation: Option<DelegationView>) -> Seq<u8> {
    match delegation {
        Some(d) => delegation_json(d),
        None => ascii("null"@),
    }
}

/// The answer to a query for all validators.
pub open spec fn all_validators_response(validators: Seq<ValidatorView>) -> Seq<u8> {
    ascii("{\"validators\":["@) + joined(validator_items(validators)) + ascii("]}"@)
}

/// The answer to a query for one validator: the validator, or `null`, in a
/// field of its own.
pub open spec fn validator_response(validator: Option<ValidatorView>) -> Seq<u8> {
    ascii("{\"validator\":"@) + match validator {
        Some(v) => validator_json(v),
        None => ascii("null"@),
    } + ascii("}"@)
}

proof fn lemma_joined_push(items: Seq<Seq<u8>>, item: Seq<u8>)
    ensures
        joined(items.push(item)) == if items.len() == 0 {
            item
        } else {
            joined(items) + seq![COMMA] + item
        },
{
    assert(items.push(item).drop_last() =~= items);
}

fn push_coin(out: &mut Vec<u8>, coin: &Coin)
    ensures
        final(out)@ == old(out)@ + coin_json(coin@),
{
    proof {
        reveal_strlit("{\"denom\":");
        reveal_strlit(",\"amount\":\"");
        reveal_strlit("\"}");
    }
    push_lit(out, "{\"denom\":");
    push_text(out, coin.denom.as_str());
    push_lit(out, ",\"amount\":\"");
    push_decimal(out, coin.amount);
    push_lit(out, "\"}");
    assert(out@ =~= old(out)@ + coin_json(coin@));
}

fn push_delegation(out: &mut Vec<u8>, delegation: &Delegation)
    ensures
        final(out)@ == old(out)@ + delegation_json(delegation@),
{
    proof {
        reveal_strlit("{\"delegator\":");
        reveal_strlit(",\"validator\":");
        reveal_strlit(",\"amount\":");
        reveal_strlit("}");
    }
    push_lit(out, "{\"delegator\":");
    push_text(out, delegation.delegator.as_str());
    push_lit(out, ",\"validator\":");
    push_text(out, delegation.validator.as_str());
    push_lit(out, ",\"amount\":");
    push_coin(out, &delegation.amount);
    push_lit(out, "}");
    assert(out@ =~= old(out)@ + delegation_json(delegation@));
}

fn push_validator(out: &mut Vec<u8>, validator: &Validator)
    ensures
        final(out)@ == old(out)@ + validator_json(validator@),
{
    proof {
        reveal_strlit("{\"address\":");
        reveal_strlit(",\"commission\":\"");
        reveal_strlit("\",\"max_commission\":\"");
        reveal_strlit("\",\"max_change_rate\":\"");
        reveal_strlit("\"}");
    }
    push_lit(out, "{\"address\":");
    push_text(out, validator.address.as_str());
    push_lit(out, ",\"commission\":\"");
    let ghost first = ascii("{\"address\":"@) + encode_text(validator@.address) + ascii(
        ",\"commission\":\""@,
    );
    assert(out@ =~= old(out)@ + first);
    push_fixed_point(out, validator.commission);
    push_lit(out, "\",\"max_commission\":\"");
    push_fixed_point(out, validator.max_commission);
    let ghost second = first + fixed_point(validator.commission as nat) + ascii(
        "\",\"max_commission\":\""@,
    ) + fixed_point(validator.max_commission as nat);
    assert(out@ =~= old(out)@ + second);
    push_lit(out, "\",\"max_change_rate\":\"");
    push_fixed_point(out, validator.max_change_rate);
    push_lit(out, "\"}");
    assert(out@ =~= old(out)@ + (second + ascii("\",\"max_change_rate\":\""@) + fixed_point(
        validator.max_change_rate as nat,
    ) + ascii("\"}"@)));
}

/// Writes the answer to a query for all balances of an address.
pub fn encode_all_balances(coins: &Vec<Coin>) -> (out: Vec<u8>)
    ensures
        out@ == all_balances_response(coins_view(coins@)),
{
    proof {
        reveal_strlit("{\"amount\":[");
        reveal_strlit("]}");
    }
    let ghost view = coins_view(coins@);
    let mut out: Vec<u8> = Vec::new();
    push_lit(&mut out, "{\"amount\":[");
    let ghost head = out@;
    let mut i: usize = 0;
    assert(coin_items(view.take(0)) =~= Seq::<Seq<u8>>::empty());
    assert(out@ =~= head + joined(coin_items(view.take(0))));
    while i < coins.len()
        invariant
            i <= coins@.len(),
            view == coins_view(coins@),
            out@ == head + joined(coin_items(view.take(i as int))),
        decreases coins.len() - i,
    {
        if i > 0 {
            out.push(COMMA);
        }
        push_coin(&mut out, &coins[i]);
        proof {
            assert(coin_items(view.take(i + 1)) =~= coin_items(view.take(i as int)).push(
                coin_json(view[i as int]),
            ));
            lemma_joined_push(coin_items(view.take(i as int)), coin_json(view[i as int]));
            assert(out@ =~= head + joined(coin_items(view.take(i + 1))));
        }
        i = i + 1;
    }
    assert(view.take(coins@.len() as int) =~= view);
    push_lit(&mut out, "]}");
    out
}

/// Writes the answer to a query for the balance in one denomination.
pub fn encode_balance(coin: &Coin) -> (out: Vec<u8>)
    ensures
        out@ == balance_response(coin@),
{
    proof {
        reveal_strlit("{\"amount\":");
        reveal_strlit("}");
    }
    let mut out: Vec<u8> = Vec::new();
    push_lit(&mut out, "{\"amount\":");
    push_coin(&mut out, coin);
    push_lit(&mut out, "}");
    assert(out@ =~= balance_response(coin@));
    out
}

/// Writes the answer to a query for the bonded denomination.
pub fn encode_bonded_denom(denom: &str) -> (out: Vec<u8>)
    ensures
        out@ == bonded_denom_response(denom@),
{
    proof {
        reveal_strlit("{\"denom\":");
        reveal_strlit("}");
    }
    let mut out: Vec<u8> = Vec::new();
    push_lit(&mut out, "{\"denom\":");
    push_text(&mut out, denom);
    push_lit(&mut out, "}");
    assert(out@ =~= bonded_denom_response(denom@));
    out
}

/// Writes the answer to a query for all delegations of a delegator.
pub fn encode_all_delegations(delegations: &Vec<Delegation>) -> (out: Vec<u8>)
    ensures
        out@ == all_delegations_response(delegations_view(delegations@)),
{
    proof {
        reveal_strlit("{\"delegations\":[");
        reveal_strlit("]}");
    }
    let ghost view = delegations_view(delegations@);
    let mut out: Vec<u8> = Vec::new();
    push_lit(&mut out, "{\"delegations\":[");
    let ghost head = out@;
    let mut i: usize = 0;
    assert(delegation_items(view.take(0)) =~= Seq::<Seq<u8>>::empty());
    assert(out@ =~= head + joined(delegation_items(view.take(0))));
    while i < delegations.len()
        invariant
            i <= delegations@.len(),
            view == delegations_view(delegations@),
            out@ == head + joined(delegation_items(view.take(i as int))),
        decreases delegations.len() - i,
    {
        if i > 0 {
            out.push(COMMA);
        }
        push_delegation(&mut out, &delegations[i]);
        proof {
            assert(delegation_items(view.take(i + 1)) =~= delegation_items(
                view.take(i as int),
            ).push(delegation_json(view[i as int])));
            lemma_joined_push(
                delegation_items(view.take(i as int)),
                delegation_json(view[i as int]),
            );
            assert(out@ =~= head + joined(delegation_items(view.take(i + 1))));
        }
        i = i + 1;
    }
    assert(view.take(delegations@.len() as int) =~= view);
    push_lit(&mut out, "]}");
    out
}

/// Writes the answer to a query for one delegation.
pub fn encode_delegation(delegation: &Option<Delegation>) -> (out: Vec<u8>)
    ensures
        out@ == delegation_response(delegation_view(*delegation)),
{
    proof {
        reveal_strlit("null");
    }
    let mut out: Vec<u8> = Vec::new();
    match delegation {
        Some(d) => {
            push_delegation(&mut out, d);
        },
        None => {
            push_lit(&mut out, "null");
        },
    }
    assert(out@ =~= delegation_response(delegation_view(*delegation)));
    out
}

/// Writes the answer to a query for all validators.
pub fn encode_all_validators(validators: &Vec<Validator>) -> (out: Vec<u8>)
    ensures
        out@ == all_validators_response(validators_view(validators@)),
{
    proof {
        reveal_strlit("{\"validators\":[");
        reveal_strlit("]}");
    }
    let ghost view = validators_view(validators@);
    let mut out: Vec<u8> = Vec::new();
    push_lit(&mut out, "{\"validators\":[");
    let ghost head = out@;
    let mut i: usize = 0;
    assert(validator_items(view.take(0)) =~= Seq::<Seq<u8>>::empty());
    assert(out@ =~= head + joined(validator_items(view.take(0))));
    while i < validators.len()
        invariant
            i <= validators@.len(),
            view == validators_view(validators@),
            out@ == head + joined(validator_items(view.take(i as int))),
        decreases validators.len() - i,
    {
        if i > 0 {
            out.push(COMMA);
        }
        push_validator(&mut out, &validators[i]);
        proof {
            assert(validator_items(view.take(i + 1)) =~= validator_items(view.take(i as int)).push(
                validator_json(view[i as int]),
            ));
            lemma_joined_push(
                validator_items(view.take(i as int)),
                validator_json(view[i as int]),
            );
            assert(out@ =~= head + joined(validator_items(view.take(i + 1))));
        }
        i = i + 1;
    }
    assert(view.take(validators@.len() as int) =~= view);
    push_lit(&mut out, "]}");
    out
}

/// Writes the answer to a query for one validator.
pub fn encode_validator(validator: &Option<Validator>) -> (out: Vec<u8>)
    ensures
        out@ == validator_response(validator_view(*validator)),
{
    proof {
        reveal_strlit("{\"validator\":");
        reveal_strlit("null");
        reveal_strlit("}");
    }
    let mut out: Vec<u8> = Vec::new();
    push_lit(&mut out, "{\"validator\":");
    match validator {
        Some(v) => {
            push_validator(&mut out, v);
        },
        None => {
            push_lit(&mut out, "null");
        },
    }
    push_lit(&mut out, "}");
    assert(out@ =~= validator_response(validator_view(*validator)));
    out
}

} // verus!
