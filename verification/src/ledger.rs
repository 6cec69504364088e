//! Ledger-size estimator.
//!
//! For every struct or enum carrying the persisted-layout marker, estimates
//! the serialized byte size under a fixed cost model and classifies it against
//! the configured limit.  A struct costs the sum of its field sizes; an enum
//! costs a 4-byte discriminant plus the largest of its variants (variants are
//! mutually exclusive in storage).  The mathematical size is exact; the
//! executable estimate saturates at `usize::MAX`, which classifies exactly as
//! the true size does, the limit being a machine size itself.
//!
//! Classification, with the approaching threshold given in parts per
//! thousand: at or above the limit the level is `ExceedsLimit` (in strict
//! mode already at half the limit); at or above `limit × threshold / 1000`
//! it is `ApproachingLimit`; below that no warning is raised.

use vstd::prelude::*;

use crate::ast::{Item, SourceFile, TyExpr};
use crate::findings::{SizeWarning, SizeWarningLevel, SizeWarningV};
use crate::strutil::str_eq;

verus! {

/// Clamps a mathematical size to `usize`.
pub open spec fn sat(n: nat) -> usize {
    if n > usize::MAX {
        usize::MAX
    } else {
        n as usize
    }
}

/// Saturation distributes over addition.
pub proof fn lemma_sat_add(a: nat, b: nat)
    ensures
        sat((sat(a) + sat(b)) as nat) == sat(a + b),
{
}

/// Saturation distributes over multiplication.
pub proof fn lemma_sat_mul(a: nat, b: nat)
    ensures
        sat((sat(a) * sat(b)) as nat) == sat(a * b),
{
    if a <= usize::MAX && b <= usize::MAX {
    } else if a == 0 || b == 0 {
        assert(sat(a) == 0 || sat(b) == 0);
        assert(sat(a) * sat(b) == 0) by (nonlinear_arith)
            requires
                sat(a) == 0 || sat(b) == 0,
        ;
        assert(a * b == 0) by (nonlinear_arith)
            requires
                a == 0 || b == 0,
        ;
    } else {
        assert(sat(a) >= 1 && sat(b) >= 1 && (a > usize::MAX || b > usize::MAX));
        assert(sat(a) * sat(b) >= usize::MAX && a * b > usize::MAX) by (nonlinear_arith)
            requires
                sat(a) >= 1,
                sat(b) >= 1,
                a >= sat(a),
                b >= sat(b),
                sat(a) == usize::MAX || sat(b) == usize::MAX,
                a > usize::MAX || b > usize::MAX,
                a >= 1,
                b >= 1,
        ;
    }
}

/// Saturating addition on `usize`.
pub fn sat_add(a: usize, b: usize) -> (r: usize)
    ensures
        r == sat((a + b) as nat),
{
    a.saturating_add(b)
}

/// Saturating multiplication on `usize`.
pub fn sat_mul(a: usize, b: usize) -> (r: usize)
    ensures
        r == sat((a * b) as nat),
{
    match a.checked_mul(b) {
        Some(v) => v,
        None => usize::MAX,
    }
}

/// The estimated serialized size of a type, in bytes: fixed-width primitives
/// cost their natural width, an address-like type 32, blob/string/symbol
/// types a flat 64; a sequence type costs 8 plus its element, a map 16 plus
/// twice the sum of its key and value types, an optional type 1 plus its
/// inner type (each falling back to a flat default when unresolvable); a
/// fixed-size array multiplies its element by its length; an unrecognized
/// named type defaults to 32 and any other type form to 8.
pub open spec fn type_size(t: TyExpr) -> nat
    decreases t,
{
    match t {
        TyExpr::Named { name, args } => {
            if name@ == "u32"@ || name@ == "i32"@ || name@ == "bool"@ {
                4
            } else if name@ == "u64"@ || name@ == "i64"@ {
                8
            } else if name@ == "u128"@ || name@ == "i128"@ || name@ == "I128"@ || name@
                == "U128"@ {
                16
            } else if name@ == "Address"@ {
                32
            } else if name@ == "Bytes"@ || name@ == "BytesN"@ || name@ == "String"@ || name@
                == "Symbol"@ {
                64
            } else if name@ == "Vec"@ {
                if args@.len() > 0 {
                    8 + type_size(args@[0])
                } else {
                    128
                }
            } else if name@ == "Map"@ {
                let inner = sizes_sum(args@);
                if inner > 0 {
                    16 + inner * 2
                } else {
                    128
                }
            } else if name@ == "Option"@ {
                if args@.len() > 0 {
                    1 + type_size(args@[0])
                } else {
                    32
                }
            } else {
                32
            }
        },
        TyExpr::Array { elem, len } => match len {
            Some(n) => (n as nat) * type_size(*elem),
            None => 64,
        },
        TyExpr::Other => 8,
    }
}

/// The sum of the estimated sizes of a list of types.
pub open spec fn sizes_sum(ts: Seq<TyExpr>) -> nat
    decreases ts,
{
    if ts.len() == 0 {
        0
    } else {
        sizes_sum(ts.drop_last()) + type_size(ts.last())
    }
}

/// The estimated size of a struct: the sum of its field sizes.
pub open spec fn struct_size(fields: Seq<TyExpr>) -> nat {
    sizes_sum(fields)
}

/// The largest variant size among a list of variants.
pub open spec fn max_variant_size(variants: Seq<Vec<TyExpr>>) -> nat
    decreases variants,
{
    if variants.len() == 0 {
        0
    } else {
        let rest = max_variant_size(variants.drop_last());
        let own = sizes_sum(variants.last()@);
        if own > rest {
            own
        } else {
            rest
        }
    }
}

/// The estimated size of an enum: a 4-byte discriminant plus its largest
/// variant.
pub open spec fn enum_size(variants: Seq<Vec<TyExpr>>) -> nat {
    4 + max_variant_size(variants)
}

/// Classification of an estimated size against the configured limit;
/// `threshold_ppm` is the approaching threshold in parts per thousand.
pub open spec fn classify(size: usize, limit: usize, threshold_ppm: u32, strict: bool) -> Option<
    SizeWarningLevel,
> {
    if size >= limit {
        Some(SizeWarningLevel::ExceedsLimit)
    } else if strict && 2 * size >= limit {
        Some(SizeWarningLevel::ExceedsLimit)
    } else if 1000 * size >= limit * threshold_ppm {
        Some(SizeWarningLevel::ApproachingLimit)
    } else {
        None
    }
}

/// Size classification against limit `L` and approaching threshold `T`
/// (in parts per thousand), outside strict mode: a size at or above `L`
/// exceeds the limit; a size below `L` but at or above `L×T/1000` approaches
/// it; a smaller size raises no warning.
pub proof fn lemma_size_classification(size: usize, limit: usize, threshold_ppm: u32)
    ensures
        size >= limit ==> classify(size, limit, threshold_ppm, false) == Some(
            SizeWarningLevel::ExceedsLimit,
        ),
        size < limit && 1000 * size >= limit * threshold_ppm ==> classify(
            size,
            limit,
            threshold_ppm,
            false,
        ) == Some(SizeWarningLevel::ApproachingLimit),
        size < limit && 1000 * size < limit * threshold_ppm ==> classify(
            size,
            limit,
            threshold_ppm,
            false,
        ) is None,
{
}

/// The struct form of the classification law, for fields whose sizes sum to
/// `S`: the estimator classifies its saturated estimate of `S` exactly as the
/// three-way rule classifies `S` itself.  No bound on `S` is needed: below
/// the limit the estimate equals `S` (the limit fits the machine), and at or
/// above the limit the estimate is at least the limit even when saturated.
pub proof fn lemma_struct_size_classified(
    fields: Seq<TyExpr>,
    limit: usize,
    threshold_ppm: u32,
)
    ensures
        struct_size(fields) >= limit ==> classify(
            sat(struct_size(fields)),
            limit,
            threshold_ppm,
            false,
        ) == Some(SizeWarningLevel::ExceedsLimit),
        struct_size(fields) < limit && 1000 * struct_size(fields) >= limit * threshold_ppm
            ==> classify(sat(struct_size(fields)), limit, threshold_ppm, false) == Some(
            SizeWarningLevel::ApproachingLimit,
        ),
        struct_size(fields) < limit && 1000 * struct_size(fields) < limit * threshold_ppm
            ==> classify(sat(struct_size(fields)), limit, threshold_ppm, false) is None,
{
    if struct_size(fields) < limit {
        assert(sat(struct_size(fields)) == struct_size(fields));
    } else {
        assert(sat(struct_size(fields)) >= limit);
    }
}

/// Decides [`classify`] exactly, with no rounding.
pub fn classify_size(size: usize, limit: usize, threshold_ppm: u32, strict: bool) -> (r: Option<
    SizeWarningLevel,
>)
    ensures
        r == classify(size, limit, threshold_ppm, strict),
{
    proof {
        assert((limit as u128) * (threshold_ppm as u128) <= (0xffff_ffff_ffff_ffff as u128) * (
        0xffff_ffff as u128)) by (nonlinear_arith)
            requires
                limit as u128 <= 0xffff_ffff_ffff_ffff as u128,
                threshold_ppm as u128 <= 0xffff_ffff as u128,
        ;
    }
    if size >= limit {
        Some(SizeWarningLevel::ExceedsLimit)
    } else if strict && 2 * (size as u128) >= limit as u128 {
        Some(SizeWarningLevel::ExceedsLimit)
    } else if 1000 * (size as u128) >= (limit as u128) * (threshold_ppm as u128) {
        Some(SizeWarningLevel::ApproachingLimit)
    } else {
        None
    }
}

/// Computes the saturated estimate of [`type_size`].
pub fn estimate_type_size(t: &TyExpr) -> (r: usize)
    ensures
        r == sat(type_size(*t)),
    decreases *t,
{
    match t {
        TyExpr::Named { name, args } => {
            let n = name.as_str();
            if str_eq(n, "u32") || str_eq(n, "i32") || str_eq(n, "bool") {
                4
            } else if str_eq(n, "u64") || str_eq(n, "i64") {
                8
            } else if str_eq(n, "u128") || str_eq(n, "i128") || str_eq(n, "I128") || str_eq(
                n,
                "U128",
            ) {
                16
            } else if str_eq(n, "Address") {
                32
            } else if str_eq(n, "Bytes") || str_eq(n, "BytesN") || str_eq(n, "String") || str_eq(
                n,
                "Symbol",
            ) {
                64
            } else if str_eq(n, "Vec") {
                if args.len() > 0 {
                    let inner = estimate_type_size(&args[0]);
                    let r = sat_add(8, inner);
                    proof {
                        lemma_sat_add(8, type_size(args@[0]));
                    }
                    r
                } else {
                    128
                }
            } else if str_eq(n, "Map") {
                let inner = estimate_sizes_sum(args);
                if inner > 0 {
                    let doubled = sat_mul(inner, 2);
                    let r = sat_add(16, doubled);
                    proof {
                        lemma_sat_mul(sizes_sum(args@), 2);
                        lemma_sat_add(16, sizes_sum(args@) * 2);
                    }
                    r
                } else {
                    128
                }
            } else if str_eq(n, "Option") {
                if args.len() > 0 {
                    let inner = estimate_type_size(&args[0]);
                    let r = sat_add(1, inner);
                    proof {
                        lemma_sat_add(1, type_size(args@[0]));
                    }
                    r
                } else {
                    32
                }
            } else {
                32
            }
        },
        TyExpr::Array { elem, len } => match len {
            Some(n) => {
                let inner = estimate_type_size(elem);
                let r = sat_mul(*n, inner);
                proof {
                    lemma_sat_mul(*n as nat, type_size(**elem));
                }
                r
            },
            None => 64,
        },
        TyExpr::Other => 8,
    }
}

/// Computes the saturated estimate of [`sizes_sum`].
fn estimate_sizes_sum(ts: &Vec<TyExpr>) -> (r: usize)
    ensures
        r == sat(sizes_sum(ts@)),
    decreases ts@,
{
    let mut total: usize = 0;
    let n = ts.len();
    for i in 0..n
        invariant
            n == ts@.len(),
            total == sat(sizes_sum(ts@.take(i as int))),
        decreases n - i,
    {
        let sz = estimate_type_size(&ts[i]);
        total = sat_add(total, sz);
        proof {
            assert(ts@.take(i + 1).drop_last() =~= ts@.take(i as int));
            assert(ts@.take(i + 1).last() == ts@[i as int]);
            lemma_sat_add(sizes_sum(ts@.take(i as int)), type_size(ts@[i as int]));
        }
    }
    proof {
        assert(ts@.take(n as int) =~= ts@);
    }
    total
}

/// Computes the saturated estimate of [`struct_size`].
pub fn estimate_struct_size(fields: &Vec<TyExpr>) -> (r: usize)
    ensures
        r == sat(struct_size(fields@)),
{
    estimate_sizes_sum(fields)
}

/// Computes the saturated estimate of [`enum_size`].
pub fn estimate_enum_size(variants: &Vec<Vec<TyExpr>>) -> (r: usize)
    ensures
        r == sat(enum_size(variants@)),
{
    let mut max_variant: usize = 0;
    let n = variants.len();
    for i in 0..n
        invariant
            n == variants@.len(),
            max_variant == sat(max_variant_size(variants@.take(i as int))),
        decreases n - i,
    {
        let own = estimate_sizes_sum(&variants[i]);
        if own > max_variant {
            max_variant = own;
        }
        proof {
            assert(variants@.take(i + 1).drop_last() =~= variants@.take(i as int));
            assert(variants@.take(i + 1).last() == variants@[i as int]);
        }
    }
    proof {
        assert(variants@.take(n as int) =~= variants@);
        lemma_sat_add(4, max_variant_size(variants@));
    }
    sat_add(4, max_variant)
}

/// The warning contributed by one item: only marked structs and enums are
/// sized, and only classified sizes warn.
pub open spec fn item_size_warnings(
    item: Item,
    limit: usize,
    threshold_ppm: u32,
    strict: bool,
) -> Seq<SizeWarningV> {
    match item {
        Item::Struct { name, persisted, fields } => {
            if persisted {
                let sz = sat(struct_size(fields@));
                match classify(sz, limit, threshold_ppm, strict) {
                    Some(level) => seq![
                        SizeWarningV { struct_name: name@, estimated_size: sz, limit, level },
                    ],
                    None => Seq::empty(),
                }
            } else {
                Seq::empty()
            }
        },
        Item::Enum { name, persisted, variants } => {
            if persisted {
                let sz = sat(enum_size(variants@));
                match classify(sz, limit, threshold_ppm, strict) {
                    Some(level) => seq![
                        SizeWarningV { struct_name: name@, estimated_size: sz, limit, level },
                    ],
                    None => Seq::empty(),
                }
            } else {
                Seq::empty()
            }
        },
        _ => Seq::empty(),
    }
}

/// Warnings contributed by a sequence of items, in order.
pub open spec fn items_size_warnings(
    items: Seq<Item>,
    limit: usize,
    threshold_ppm: u32,
    strict: bool,
) -> Seq<SizeWarningV>
    decreases items,
{
    if items.len() == 0 {
        Seq::empty()
    } else {
        items_size_warnings(items.drop_last(), limit, threshold_ppm, strict)
            + item_size_warnings(items.last(), limit, threshold_ppm, strict)
    }
}

/// All size warnings of one source file, in declaration order.
pub open spec fn file_size_warnings(
    file: SourceFile,
    limit: usize,
    threshold_ppm: u32,
    strict: bool,
) -> Seq<SizeWarningV> {
    items_size_warnings(file.items@, limit, threshold_ppm, strict)
}

/// Sizes every persisted-layout struct and enum of `file` and returns one
/// warning for each whose saturated estimate classifies against `limit`.
pub fn analyze_ledger_size_in_file(
    file: &SourceFile,
    limit: usize,
    threshold_ppm: u32,
    strict: bool,
) -> (r: Vec<SizeWarning>)
    ensures
        r.deep_view() == file_size_warnings(*file, limit, threshold_ppm, strict),
{
    let mut warnings: Vec<SizeWarning> = Vec::new();
    let n = file.items.len();
    for i in 0..n
        invariant
            n == file.items@.len(),
            warnings.deep_view() == items_size_warnings(
                file.items@.take(i as int),
                limit,
                threshold_ppm,
                strict,
            ),
        decreases n - i,
    {
        let ghost pre = warnings.deep_view();
        match &file.items[i] {
            Item::Struct { name, persisted, fields } => {
                if *persisted {
                    let sz = estimate_struct_size(fields);
                    match classify_size(sz, limit, threshold_ppm, strict) {
                        Some(level) => {
                            warnings.push(
                                SizeWarning {
                                    struct_name: name.clone(),
                                    estimated_size: sz,
                                    limit,
                                    level,
                                },
                            );
                        },
                        None => {},
                    }
                }
            },
            Item::Enum { name, persisted, variants } => {
                if *persisted {
                    let sz = estimate_enum_size(variants);
                    match classify_size(sz, limit, threshold_ppm, strict) {
                        Some(level) => {
                            warnings.push(
                                SizeWarning {
                                    struct_name: name.clone(),
                                    estimated_size: sz,
                                    limit,
                                    level,
                                },
                            );
                        },
                        None => {},
                    }
                }
            },
            _ => {},
        }
        proof {
            assert(warnings.deep_view() =~~= pre + item_size_warnings(
                file.items@[i as int],
                limit,
                threshold_ppm,
                strict,
            ));
            assert(file.items@.take(i + 1).drop_last() =~= file.items@.take(i as int));
            assert(file.items@.take(i + 1).last() == file.items@[i as int]);
        }
    }
    proof {
        assert(file.items@.take(n as int) =~= file.items@);
    }
    warnings
}

} // verus!
