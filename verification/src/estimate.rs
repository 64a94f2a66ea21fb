//! Price and power estimates for a CPU, read off its model name.
use vstd::prelude::*;
use crate::text::{chars_of, contains_str, has_substring};

verus! {

/// What `str::to_lowercase` makes of a string: Unicode lowercase mapping,
/// the same for the same characters on every machine.
pub uninterp spec fn lowercase_of(s: Seq<char>) -> Seq<char>;

/// Calls `str::to_lowercase`; the contract claims only that the result's
/// characters are `lowercase_of` the argument's characters.
#[verifier::external_body]
fn to_lowercase(s: &str) -> (res: String)
    ensures
        res@ == lowercase_of(s@),
{
    s.to_lowercase()
}

/// The (lowercased) model names an Apple Silicon chip.
pub open spec fn is_apple(m: Seq<char>) -> bool {
    has_substring(m, "apple"@) || has_substring(m, "m1"@) || has_substring(m, "m2"@)
        || has_substring(m, "m3"@) || has_substring(m, "m4"@)
}

/// The (lowercased) model names an Intel chip.
pub open spec fn is_intel(m: Seq<char>) -> bool {
    has_substring(m, "intel"@)
}

/// The (lowercased) model names an AMD chip.
pub open spec fn is_amd(m: Seq<char>) -> bool {
    has_substring(m, "amd"@) || has_substring(m, "ryzen"@)
}

/// Estimated purchase price, in whole dollars, of a CPU with the given lowercased model name.
/// AMD chips are priced by their Ryzen series first (9 or Threadripper, 7, 5); names
/// without a series are priced by the first of the digits 9, 7, 5 found in them.
pub open spec fn cpu_price(m: Seq<char>) -> u32 {
    if is_apple(m) {
        if has_substring(m, "ultra"@) {
            3000
        } else if has_substring(m, "max"@) {
            1500
        } else if has_substring(m, "pro"@) {
            800
        } else {
            400
        }
    } else if is_intel(m) && (has_substring(m, "i9"@) || has_substring(m, "xeon"@)) {
        600
    } else if is_intel(m) && has_substring(m, "i7"@) {
        400
    } else if is_intel(m) && has_substring(m, "i5"@) {
        250
    } else if is_intel(m) && has_substring(m, "i3"@) {
        150
    } else if is_amd(m) && (has_substring(m, "ryzen 9"@) || has_substring(m, "threadripper"@)) {
        500
    } else if is_amd(m) && has_substring(m, "ryzen 7"@) {
        350
    } else if is_amd(m) && has_substring(m, "ryzen 5"@) {
        200
    } else if is_amd(m) && has_substring(m, "9"@) {
        500
    } else if is_amd(m) && has_substring(m, "7"@) {
        350
    } else if is_amd(m) && has_substring(m, "5"@) {
        200
    } else {
        300
    }
}

/// Estimated thermal design power, in watts, of a CPU with the given lowercased model name.
pub open spec fn cpu_tdp(m: Seq<char>) -> u32 {
    if is_apple(m) {
        if has_substring(m, "ultra"@) {
            60
        } else if has_substring(m, "max"@) {
            40
        } else if has_substring(m, "pro"@) {
            30
        } else {
            20
        }
    } else if is_intel(m) && (has_substring(m, "i9"@) || has_substring(m, "xeon"@)) {
        125
    } else if is_intel(m) && (has_substring(m, "i7"@) || has_substring(m, "i5"@)) {
        65
    } else if is_intel(m) && has_substring(m, "i3"@) {
        51
    } else if is_amd(m) && (has_substring(m, "9"@) || has_substring(m, "threadripper"@)) {
        105
    } else if is_amd(m) && (has_substring(m, "7"@) || has_substring(m, "5"@)) {
        65
    } else {
        65
    }
}

fn apple_chip(m: &Vec<char>) -> (res: bool)
    ensures
        res == is_apple(m@),
{
    contains_str(m, "apple") || contains_str(m, "m1") || contains_str(m, "m2")
        || contains_str(m, "m3") || contains_str(m, "m4")
}

fn amd_chip(m: &Vec<char>) -> (res: bool)
    ensures
        res == is_amd(m@),
{
    contains_str(m, "amd") || contains_str(m, "ryzen")
}

/// Price estimate for an already lowercased model name.
pub fn cpu_price_of_lowered(model_lower: &str) -> (price: u32)
    ensures
        price == cpu_price(model_lower@),
{
    let m = chars_of(model_lower);
    if apple_chip(&m) {
        if contains_str(&m, "ultra") {
            return 3000;
        } else if contains_str(&m, "max") {
            return 1500;
        } else if contains_str(&m, "pro") {
            return 800;
        } else {
            return 400;
        }
    }
    if contains_str(&m, "intel") {
        if contains_str(&m, "i9") || contains_str(&m, "xeon") {
            return 600;
        } else if contains_str(&m, "i7") {
            return 400;
        } else if contains_str(&m, "i5") {
            return 250;
        } else if contains_str(&m, "i3") {
            return 150;
        }
    }
    if amd_chip(&m) {
        if contains_str(&m, "ryzen 9") || contains_str(&m, "threadripper") {
            return 500;
        } else if contains_str(&m, "ryzen 7") {
            return 350;
        } else if contains_str(&m, "ryzen 5") {
            return 200;
        } else if contains_str(&m, "9") {
            return 500;
        } else if contains_str(&m, "7") {
            return 350;
        } else if contains_str(&m, "5") {
            return 200;
        }
    }
    300
}

/// Power estimate for an already lowercased model name.
pub fn cpu_tdp_of_lowered(model_lower: &str) -> (watts: u32)
    ensures
        watts == cpu_tdp(model_lower@),
{
    let m = chars_of(model_lower);
    if apple_chip(&m) {
        if contains_str(&m, "ultra") {
            return 60;
        } else if contains_str(&m, "max") {
            return 40;
        } else if contains_str(&m, "pro") {
            return 30;
        } else {
            return 20;
        }
    }
    if contains_str(&m, "intel") {
        if contains_str(&m, "i9") || contains_str(&m, "xeon") {
            return 125;
        } else if contains_str(&m, "i7") || contains_str(&m, "i5") {
            return 65;
        } else if contains_str(&m, "i3") {
            return 51;
        }
    }
    if amd_chip(&m) {
        if contains_str(&m, "9") || contains_str(&m, "threadripper") {
            return 105;
        } else if contains_str(&m, "7") || contains_str(&m, "5") {
            return 65;
        }
    }
    65
}

/// Estimated price in dollars of the CPU named `model`, matched case-insensitively.
pub fn estimate_cpu_cost(model: &str) -> (price: u32)
    ensures
        price == cpu_price(lowercase_of(model@)),
{
    let lower = to_lowercase(model);
    cpu_price_of_lowered(lower.as_str())
}

/// Estimated thermal design power in watts of the CPU named `model`, matched case-insensitively.
pub fn estimate_cpu_tdp(model: &str) -> (watts: u32)
    ensures
        watts == cpu_tdp(lowercase_of(model@)),
{
    let lower = to_lowercase(model);
    cpu_tdp_of_lowered(lower.as_str())
}

/// The Ultra, Max and Pro tiers are Apple Silicon prices: a name that is not Apple
/// Silicon gets an Intel or AMD tier price or the default, and an Intel name with no
/// i3/i5/i7/i9/Xeon tier that is not AMD gets the default. Apple Silicon names get
/// one of the four Apple prices.
pub proof fn lemma_price_tiers_by_vendor(m: Seq<char>)
    ensures
        !is_apple(m) ==> {
            let p = cpu_price(m);
            p == 600 || p == 400 || p == 250 || p == 150 || p == 500 || p == 350 || p == 200 || p == 300
        },
        !is_apple(m) && !is_intel(m) && !is_amd(m) ==> cpu_price(m) == 300,
        !is_apple(m) && is_intel(m) && !is_amd(m) && !has_substring(m, "i9"@) && !has_substring(m, "xeon"@)
            && !has_substring(m, "i7"@) && !has_substring(m, "i5"@) && !has_substring(m, "i3"@)
            ==> cpu_price(m) == 300,
        is_apple(m) ==> {
            let p = cpu_price(m);
            p == 3000 || p == 1500 || p == 800 || p == 400
        },
        is_apple(m) && has_substring(m, "ultra"@) ==> cpu_price(m) == 3000,
{
}

/// Power estimates follow the same vendor split: a name that is not Apple Silicon
/// never gets an Apple Silicon wattage, and a name of no known vendor gets 65 W.
pub proof fn lemma_tdp_tiers_by_vendor(m: Seq<char>)
    ensures
        !is_apple(m) ==> {
            let w = cpu_tdp(m);
            w == 125 || w == 65 || w == 51 || w == 105
        },
        !is_apple(m) && !is_intel(m) && !is_amd(m) ==> cpu_tdp(m) == 65,
        is_apple(m) ==> {
            let w = cpu_tdp(m);
            w == 60 || w == 40 || w == 30 || w == 20
        },
{
}

} // verus!
