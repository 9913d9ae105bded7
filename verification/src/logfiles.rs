use vstd::prelude::*;

use crate::logger::{sanitize_filename, sanitized};
use crate::text::{decimal, push_char, push_decimal};

verus! {

/// The directory of a scenario's log files: "log/<scenario>/", with the name
/// sanitized.
pub open spec fn scenario_dir(scenario_name: Seq<char>) -> Seq<char> {
    "log/"@ + sanitized(scenario_name) + "/"@
}

/// "log/<scenario>/" for the given scenario name.
fn push_scenario_dir(r: &mut String, scenario_name: &str)
    ensures
        final(r)@ == old(r)@ + scenario_dir(scenario_name@),
{
    r.append("log/");
    let name = sanitize_filename(scenario_name);
    r.append(name.as_str());
    push_char(r, '/');
    assert(final(r)@ =~= old(r)@ + scenario_dir(scenario_name@)) by {
        reveal_strlit("/");
    }
}

/// The file of a scenario's comparisons and checks: "log/<scenario>/scenario.log".
pub fn scenario_log_path(scenario_name: &str) -> (r: String)
    ensures
        r@ == scenario_dir(scenario_name@) + "scenario.log"@,
{
    let mut r = String::new();
    push_scenario_dir(&mut r, scenario_name);
    r.append("scenario.log");
    r
}

/// The file of a variant's iterations: "log/<scenario>/iterations-<variant>.log",
/// with the variant's name sanitized.
pub fn iterations_log_path(scenario_name: &str, variant_name: &str) -> (r: String)
    ensures
        r@ == scenario_dir(scenario_name@) + "iterations-"@ + sanitized(variant_name@) + ".log"@,
{
    let mut r = String::new();
    push_scenario_dir(&mut r, scenario_name);
    r.append("iterations-");
    r.append(sanitize_filename(variant_name).as_str());
    r.append(".log");
    r
}

/// The file of a variant's final statistics: "log/<scenario>/variant-<variant>.log".
pub fn variant_log_path(scenario_name: &str, variant_name: &str) -> (r: String)
    ensures
        r@ == scenario_dir(scenario_name@) + "variant-"@ + sanitized(variant_name@) + ".log"@,
{
    let mut r = String::new();
    push_scenario_dir(&mut r, scenario_name);
    r.append("variant-");
    r.append(sanitize_filename(variant_name).as_str());
    r.append(".log");
    r
}

/// The file of the auctions of one iteration (counted from 1) of a variant:
/// "log/<scenario>/auctions-<variant>-iter<iteration>.csv".
pub fn auctions_log_path(scenario_name: &str, variant_name: &str, iteration: u64) -> (r: String)
    ensures
        r@ == scenario_dir(scenario_name@) + "auctions-"@ + sanitized(variant_name@) + "-iter"@
            + decimal(iteration as nat) + ".csv"@,
{
    let mut r = String::new();
    push_scenario_dir(&mut r, scenario_name);
    r.append("auctions-");
    r.append(sanitize_filename(variant_name).as_str());
    r.append("-iter");
    push_decimal(&mut r, iteration);
    r.append(".csv");
    r
}

/// The columns of the auction log that describe the impression and the result.
pub open spec fn auction_log_fixed_columns() -> Seq<char> {
    "seller_id,campaign_id,winning_bid,floor_cpm,impression_base_value,competing_bid,win_rate_actual_sigmoid_offset,win_rate_actual_sigmoid_scale"@
}

/// A value and a bid column for each of the first `n` campaigns, each column
/// preceded by a comma.
pub open spec fn campaign_columns(n: nat) -> Seq<char>
    decreases n,
{
    if n == 0 {
        Seq::empty()
    } else {
        campaign_columns((n - 1) as nat) + ",campaign_"@ + decimal((n - 1) as nat) + "_value,campaign_"@
            + decimal((n - 1) as nat) + "_bid"@
    }
}

/// The header line of the auction log of a marketplace with `num_campaigns`
/// campaigns: the impression's columns, then each campaign's value and bid.
pub fn auction_log_header(num_campaigns: u64) -> (r: String)
    ensures
        r@ == auction_log_fixed_columns() + campaign_columns(num_campaigns as nat),
{
    let mut r = String::from_str(
        "seller_id,campaign_id,winning_bid,floor_cpm,impression_base_value,competing_bid,win_rate_actual_sigmoid_offset,win_rate_actual_sigmoid_scale",
    );
    let mut k: u64 = 0;
    while k < num_campaigns
        invariant
            k <= num_campaigns,
            r@ == auction_log_fixed_columns() + campaign_columns(k as nat),
        decreases num_campaigns - k,
    {
        r.append(",campaign_");
        push_decimal(&mut r, k);
        r.append("_value,campaign_");
        push_decimal(&mut r, k);
        r.append("_bid");
        assert(r@ =~= auction_log_fixed_columns() + campaign_columns((k + 1) as nat));
        k = k + 1;
    }
    r
}

/// Scenarios whose sanitized names differ keep their log files in different
/// directories.
pub proof fn law_scenario_files_stay_apart(a: Seq<char>, b: Seq<char>)
    requires
        sanitized(a) != sanitized(b),
    ensures
        scenario_dir(a) != scenario_dir(b),
{
    let da = scenario_dir(a);
    let db = scenario_dir(b);
    reveal_strlit("log/");
    reveal_strlit("/");
    if da == db {
        assert(da.len() == db.len());
        assert(sanitized(a).len() == sanitized(b).len());
        assert forall|i: int| 0 <= i < sanitized(a).len() implies sanitized(a)[i] == sanitized(b)[i] by {
            assert(da[i + 4] == sanitized(a)[i]);
            assert(db[i + 4] == sanitized(b)[i]);
        }
        assert(sanitized(a) =~= sanitized(b));
    }
}

} // verus!
