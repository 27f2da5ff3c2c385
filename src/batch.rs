//! Batch runs: the accounts and symbols that a configuration names, and
//! where each run's files go.

use vstd::prelude::*;
use vstd::string::{StringExecFns, StringSliceAdditionalSpecFns};
use vstd::utf8::encode_utf8;

verus! {

/// A batch configuration: settings shared by all runs, and the accounts.
pub struct Config {
    pub global: GlobalConfig,
    pub accounts: Vec<AccountConfig>,
}

/// Settings shared by all runs of a batch.
pub struct GlobalConfig {
    /// How many days back to fetch.
    pub days: u32,
    /// The markout horizons, in minutes.
    pub horizons: Vec<u32>,
    /// The directory that receives every file of the batch.
    pub output_dir: String,
}

/// One account and the symbols to analyse for it.
pub struct AccountConfig {
    pub id: String,
    pub symbols: Vec<String>,
}

/// Whether `t` is the text of one of the symbols that `accounts` name.
pub open spec fn names_symbol(accounts: Seq<AccountConfig>, t: Seq<char>) -> bool {
    exists|a: int, s: int|
        0 <= a < accounts.len() && 0 <= s < accounts[a].symbols.len()
            && #[trigger] accounts[a].symbols@[s]@ == t
}

/// The `(account, symbol)` positions of every run, account by account and
/// within an account in the order of its symbols.
pub open spec fn run_pairs(accounts: Seq<AccountConfig>) -> Seq<(usize, usize)>
    decreases accounts.len(),
{
    if accounts.len() == 0 {
        Seq::empty()
    } else {
        let a = (accounts.len() - 1) as usize;
        run_pairs(accounts.drop_last()) + Seq::new(
            accounts.last().symbols@.len(),
            |s: int| (a, s as usize),
        )
    }
}

/// Whether one of the strings `r` has the text `t`.
pub open spec fn has_text(r: Seq<String>, t: Seq<char>) -> bool {
    exists|k: int| 0 <= k < r.len() && #[trigger] r[k]@ == t
}

proof fn lemma_has_text_push(r: Seq<String>, x: String, t: Seq<char>)
    requires
        has_text(r, t),
    ensures
        has_text(r.push(x), t),
{
    let k = choose|k: int| 0 <= k < r.len() && #[trigger] r[k]@ == t;
    assert(r.push(x)[k]@ == t);
}

/// The symbols that `accounts` name, each once, in order of first mention.
pub fn unique_symbols(accounts: &Vec<AccountConfig>) -> (r: Vec<String>)
    ensures
        forall|i: int, j: int| 0 <= i < j < r.len() ==> r@[i]@ != r@[j]@,
        forall|k: int| 0 <= k < r.len() ==> names_symbol(accounts@, #[trigger] r@[k]@),
        forall|a: int, s: int|
            0 <= a < accounts.len() && 0 <= s < accounts@[a].symbols.len() ==> has_text(
                r@,
                #[trigger] accounts@[a].symbols@[s]@,
            ),
{
    let mut r: Vec<String> = Vec::new();
    let mut a: usize = 0;
    while a < accounts.len()
        invariant
            0 <= a <= accounts.len(),
            forall|i: int, j: int| 0 <= i < j < r.len() ==> r@[i]@ != r@[j]@,
            forall|k: int| 0 <= k < r.len() ==> names_symbol(accounts@, #[trigger] r@[k]@),
            forall|b: int, s: int|
                0 <= b < a && 0 <= s < accounts@[b].symbols.len() ==> has_text(
                    r@,
                    #[trigger] accounts@[b].symbols@[s]@,
                ),
        decreases accounts.len() - a,
    {
        let syms = &accounts[a].symbols;
        let mut s: usize = 0;
        while s < syms.len()
            invariant
                0 <= a < accounts.len(),
                syms == accounts@[a as int].symbols,
                0 <= s <= syms.len(),
                forall|i: int, j: int| 0 <= i < j < r.len() ==> r@[i]@ != r@[j]@,
                forall|k: int| 0 <= k < r.len() ==> names_symbol(accounts@, #[trigger] r@[k]@),
                forall|b: int, t: int|
                    0 <= b < a && 0 <= t < accounts@[b].symbols.len() ==> has_text(
                        r@,
                        #[trigger] accounts@[b].symbols@[t]@,
                    ),
                forall|t: int|
                    0 <= t < s ==> has_text(r@, #[trigger] accounts@[a as int].symbols@[t]@),
            decreases syms.len() - s,
        {
            let sym = &syms[s];
            let mut k: usize = 0;
            let mut seen = false;
            while k < r.len()
                invariant
                    0 <= k <= r.len(),
                    seen ==> has_text(r@, sym@),
                    !seen ==> forall|m: int| 0 <= m < k ==> #[trigger] r@[m]@ != sym@,
                decreases r.len() - k,
            {
                if r[k] == *sym {
                    seen = true;
                    assert(r@[k as int]@ == sym@);
                }
                k = k + 1;
            }
            if !seen {
                assert(names_symbol(accounts@, sym@)) by {
                    assert(accounts@[a as int].symbols@[s as int]@ == sym@);
                };
                let ghost old_r = r@;
                let c = sym.clone();
                r.push(c);
                proof {
                    assert(r@[r.len() - 1]@ == sym@);
                    assert forall|b: int, t: int|
                        0 <= b < a && 0 <= t < accounts@[b].symbols.len() implies has_text(
                            r@,
                            #[trigger] accounts@[b].symbols@[t]@,
                        ) by {
                        lemma_has_text_push(old_r, c, accounts@[b].symbols@[t]@);
                    };
                    assert forall|t: int| 0 <= t < s implies has_text(
                        r@,
                        #[trigger] accounts@[a as int].symbols@[t]@,
                    ) by {
                        lemma_has_text_push(old_r, c, accounts@[a as int].symbols@[t]@);
                    };
                }
            }
            assert(has_text(r@, accounts@[a as int].symbols@[s as int]@));
            s = s + 1;
        }
        a = a + 1;
    }
    r
}

/// The `(account, symbol)` positions of every run of a batch.
pub fn run_pairs_of(accounts: &Vec<AccountConfig>) -> (r: Vec<(usize, usize)>)
    ensures
        r@ == run_pairs(accounts@),
{
    let mut r: Vec<(usize, usize)> = Vec::new();
    let mut a: usize = 0;
    while a < accounts.len()
        invariant
            0 <= a <= accounts.len(),
            r@ == run_pairs(accounts@.take(a as int)),
        decreases accounts.len() - a,
    {
        let ghost before = r@;
        assert(accounts@.take(a + 1).drop_last() =~= accounts@.take(a as int));
        let n = accounts[a].symbols.len();
        let mut s: usize = 0;
        while s < n
            invariant
                0 <= a < accounts.len(),
                n == accounts@[a as int].symbols.len(),
                0 <= s <= n,
                r@ == before + Seq::new(s as nat, |t: int| (a, t as usize)),
            decreases n - s,
        {
            r.push((a, s));
            s = s + 1;
            assert(r@ =~= before + Seq::new(s as nat, |t: int| (a, t as usize)));
        }
        a = a + 1;
        assert(r@ =~= run_pairs(accounts@.take(a as int)));
    }
    assert(accounts@.take(accounts.len() as int) =~= accounts@);
    r
}

/// The first eight bytes of an account id, which name the account in file
/// names; `None` where the id is shorter or the eighth byte ends inside a
/// character.
pub fn account_tag(id: &str) -> (r: Option<String>)
    ensures
        r is Some <==> id.len() >= 8 && id.is_char_boundary(8),
        r is Some ==> encode_utf8(r->0@) == id.spec_bytes().subrange(0, 8),
{
    if id.len() >= 8 && id.is_char_boundary(8) {
        let (head, _) = id.split_at(8);
        Some(head.to_owned())
    } else {
        None
    }
}

/// Where the reference prices of `symbol` are kept: `<dir>/oracle_<symbol>.csv`.
pub fn oracle_path(dir: &str, symbol: &str) -> (r: String)
    ensures
        r@ == dir@ + "/oracle_"@ + symbol@ + ".csv"@,
{
    let mut r = String::from_str(dir);
    r.append("/oracle_");
    r.append(symbol);
    r.append(".csv");
    r
}

/// Where the trades of an account on `symbol` are kept:
/// `<dir>/fills_<tag>_<symbol>.csv`.
pub fn fills_path(dir: &str, tag: &str, symbol: &str) -> (r: String)
    ensures
        r@ == dir@ + "/fills_"@ + tag@ + "_"@ + symbol@ + ".csv"@,
{
    let mut r = String::from_str(dir);
    r.append("/fills_");
    r.append(tag);
    r.append("_");
    r.append(symbol);
    r.append(".csv");
    r
}

/// Where the markouts of an account on `symbol` go:
/// `<dir>/markouts_<tag>_<symbol>.csv`.
pub fn markouts_path(dir: &str, tag: &str, symbol: &str) -> (r: String)
    ensures
        r@ == dir@ + "/markouts_"@ + tag@ + "_"@ + symbol@ + ".csv"@,
{
    let mut r = String::from_str(dir);
    r.append("/markouts_");
    r.append(tag);
    r.append("_");
    r.append(symbol);
    r.append(".csv");
    r
}

} // verus!
