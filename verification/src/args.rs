//! The positional arguments of a call, cut down to what the server needs.
//!
//! A call has `n` argument slots. The last `k` of them are optional and each
//! has an entry in a table of defaults; the `n - k` before them are required.
//! A slot holding `null` is absent. The server takes a list without holes, so
//! the list ends at the last optional slot that is present, and every absent
//! optional slot before that one is filled from the table.

use crate::json::{lemma_models_of, models_of, Json, JsonModel};
use vstd::prelude::*;
use vstd::slice::slice_subrange;

verus! {

/// How many leading slots of `args` are sent, when the first `required` are
/// required: all up to the last slot at or after `required` that is present,
/// or the required ones alone if none is.
pub open spec fn used_len(args: Seq<JsonModel>, required: int) -> int
    decreases args.len(),
{
    if args.len() <= required || args.len() == 0 {
        required
    } else if !(args.last() is Null) {
        args.len() as int
    } else {
        used_len(args.drop_last(), required)
    }
}

/// The argument list that is sent for `args` under `defaults`, which stand
/// for the last `defaults.len()` slots.
pub open spec fn normalized(args: Seq<JsonModel>, defaults: Seq<JsonModel>) -> Seq<JsonModel> {
    let required = args.len() - defaults.len();
    Seq::new(
        used_len(args, required) as nat,
        |i: int|
            if i >= required && args[i] is Null {
                defaults[i - required]
            } else {
                args[i]
            },
    )
}

/// The slots of `args` once the holes among the optional slots that are
/// sent are filled from `defaults`. The slots that are not sent stay as they
/// are.
pub open spec fn filled(args: Seq<JsonModel>, defaults: Seq<JsonModel>) -> Seq<JsonModel> {
    let required = args.len() - defaults.len();
    Seq::new(
        args.len(),
        |i: int|
            if required <= i < used_len(args, required) && args[i] is Null {
                defaults[i - required]
            } else {
                args[i]
            },
    )
}

/// Whether `defaults` can fill every hole of `args`: it has no more entries
/// than there are slots, and an entry that is not `null` for each absent
/// optional slot that a present one follows.
pub open spec fn defaults_suffice(args: Seq<JsonModel>, defaults: Seq<JsonModel>) -> bool {
    let required = args.len() - defaults.len();
    &&& defaults.len() <= args.len()
    &&& forall|i: int|
        required <= i < used_len(args, required) && args[i] is Null ==> !(#[trigger] defaults[i
            - required] is Null)
}

/// `used_len` lies between `required` and the number of slots; every
/// slot from it on is absent, and the slot before it, if optional, is present.
pub proof fn lemma_used_len(args: Seq<JsonModel>, required: int)
    requires
        0 <= required <= args.len(),
    ensures
        required <= used_len(args, required) <= args.len(),
        forall|i: int| used_len(args, required) <= i < args.len() ==> args[i] is Null,
        used_len(args, required) > required ==> !(args[used_len(args, required) - 1] is Null),
    decreases args.len(),
{
    if args.len() > required && args.last() is Null {
        let front = args.drop_last();
        lemma_used_len(front, required);
        assert forall|i: int| used_len(args, required) <= i < args.len() implies args[i] is Null by {
            if i < front.len() {
                assert(front[i] == args[i]);
            }
        }
    }
}

/// `used_len` is the one number that `lemma_used_len` describes.
pub proof fn lemma_used_len_is(args: Seq<JsonModel>, required: int, used: int)
    requires
        0 <= required <= used <= args.len(),
        forall|i: int| used <= i < args.len() ==> args[i] is Null,
        used > required ==> !(args[used - 1] is Null),
    ensures
        used_len(args, required) == used,
{
    lemma_used_len(args, required);
}

/// With every slot present, the list is sent as it stands.
pub proof fn lemma_all_present_unchanged(args: Seq<JsonModel>, defaults: Seq<JsonModel>)
    requires
        defaults.len() <= args.len(),
        forall|i: int| 0 <= i < args.len() ==> !(args[i] is Null),
    ensures
        defaults_suffice(args, defaults),
        normalized(args, defaults) == args,
{
    let required = args.len() - defaults.len();
    lemma_used_len(args, required);
}

/// With every slot absent, only the required slots are sent.
pub proof fn lemma_all_absent_required_only(args: Seq<JsonModel>, defaults: Seq<JsonModel>)
    requires
        defaults.len() <= args.len(),
        forall|i: int| 0 <= i < args.len() ==> args[i] is Null,
    ensures
        defaults_suffice(args, defaults),
        normalized(args, defaults).len() == args.len() - defaults.len(),
        normalized(args, defaults) == args.take(args.len() - defaults.len()),
{
    let required = args.len() - defaults.len();
    lemma_used_len(args, required);
}

/// Without defaults every slot is required, and the list is sent as it
/// stands.
pub proof fn lemma_no_defaults_unchanged(args: Seq<JsonModel>)
    ensures
        defaults_suffice(args, Seq::empty()),
        normalized(args, Seq::empty()) == args,
{
}

/// What is sent never ends in an absent optional slot, and holds no absent
/// optional slot at all where the defaults suffice.
pub proof fn lemma_normalized_has_no_holes(args: Seq<JsonModel>, defaults: Seq<JsonModel>)
    requires
        defaults_suffice(args, defaults),
    ensures
        forall|i: int|
            args.len() - defaults.len() <= i < normalized(args, defaults).len() ==> !(
            #[trigger] normalized(args, defaults)[i] is Null),
{
    let required = args.len() - defaults.len();
    lemma_used_len(args, required);
}

/// Whether `defaults` can fill every hole of `args`.
pub fn defaults_cover(args: &[Json], defaults: &[Json]) -> (r: bool)
    ensures
        r == defaults_suffice(models_of(args@), models_of(defaults@)),
{
    let n = args.len();
    let k = defaults.len();
    if k > n {
        proof {
            lemma_models_of(args@);
            lemma_models_of(defaults@);
        }
        return false;
    }
    let required = n - k;
    let ghost a = models_of(args@);
    let ghost d = models_of(defaults@);
    proof {
        lemma_models_of(args@);
        lemma_models_of(defaults@);
        lemma_used_len(a, required as int);
    }
    let mut later_present = false;
    let mut i: usize = 0;
    while i < k
        invariant
            i <= k <= n,
            n == args@.len(),
            k == defaults@.len(),
            required == n - k,
            a == models_of(args@),
            d == models_of(defaults@),
            a.len() == n,
            d.len() == k,
            forall|m: int| 0 <= m < n ==> a[m] == #[trigger] args@[m]@,
            forall|m: int| 0 <= m < k ==> d[m] == #[trigger] defaults@[m]@,
            later_present <==> exists|m: int| n - i <= m < n && !(#[trigger] a[m] is Null),
            forall|m: int|
                n - i <= m < used_len(a, required as int) && a[m] is Null ==> !(#[trigger] d[m
                    - required] is Null),
        decreases k - i,
    {
        let at = n - 1 - i;
        if args[at].is_null() {
            if later_present && defaults[k - 1 - i].is_null() {
                proof {
                    lemma_used_len(a, required as int);
                    assert(d[at - required] is Null);
                }
                return false;
            }
            proof {
                if !later_present {
                    lemma_used_len(a, required as int);
                }
            }
        } else {
            later_present = true;
        }
        i += 1;
    }
    true
}

/// Fills the holes of `args` from `defaults` and returns the part of `args`
/// that is sent.
///
/// `defaults` stands for the last `defaults.len()` slots of `args`. The
/// defaults must suffice: [`defaults_cover`] tells whether they do.
pub fn handle_defaults<'a>(args: &'a mut [Json], defaults: &[Json]) -> (r: &'a [Json])
    requires
        defaults_suffice(models_of(old(args)@), models_of(defaults@)),
    ensures
        models_of(r@) == normalized(models_of(old(args)@), models_of(defaults@)),
        models_of(final(args)@) == filled(models_of(old(args)@), models_of(defaults@)),
{
    let n = args.len();
    let k = defaults.len();
    let ghost a = models_of(args@);
    let ghost d = models_of(defaults@);
    proof {
        lemma_models_of(args@);
        lemma_models_of(defaults@);
    }
    let required = n - k;
    proof {
        lemma_used_len(a, required as int);
    }
    // Pass over the optional slots from the last one backwards. Once a
    // present slot has been seen, every absent one before it is filled.
    let mut first_non_null_optional_idx: Option<usize> = None;
    let mut i: usize = 0;
    while i < k
        invariant
            i <= k <= n,
            n == args@.len(),
            k == defaults@.len(),
            required == n - k,
            a.len() == n,
            d.len() == k,
            d == models_of(defaults@),
            forall|m: int| 0 <= m < k ==> d[m] == #[trigger] defaults@[m]@,
            defaults_suffice(a, d),
            match first_non_null_optional_idx {
                Some(j) => n - i <= j < n && j + 1 == used_len(a, required as int),
                None => forall|m: int| n - i <= m < n ==> a[m] is Null,
            },
            forall|m: int|
                0 <= m < n ==> #[trigger] args@[m]@ == (if n - i <= m < used_len(
                    a,
                    required as int,
                ) && a[m] is Null {
                    d[m - required]
                } else {
                    a[m]
                }),
        decreases k - i,
    {
        let args_i = n - 1 - i;
        let defaults_i = k - 1 - i;
        proof {
            lemma_used_len(a, required as int);
        }
        if args[args_i].is_null() {
            if first_non_null_optional_idx.is_some() {
                let filler = defaults[defaults_i].clone();
                args[args_i] = filler;
            }
        } else if first_non_null_optional_idx.is_none() {
            proof {
                lemma_used_len_is(a, required as int, args_i + 1);
            }
            first_non_null_optional_idx = Some(args_i);
        }
        i += 1;
    }
    let used = match first_non_null_optional_idx {
        Some(j) => j + 1,
        None => required,
    };
    proof {
        if first_non_null_optional_idx is None {
            lemma_used_len_is(a, required as int, required as int);
        }
        lemma_models_of(args@);
    }
    let r = slice_subrange(args, 0, used);
    proof {
        lemma_models_of(r@);
    }
    r
}

} // verus!
