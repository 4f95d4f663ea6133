//! Parsing of model and method selections from command-line words.

use vstd::prelude::*;

use crate::config::EstimationMethod;
use crate::models::ModelType;

verus! {

/// The model variant a word names, if any.
pub open spec fn model_type_of_word(s: Seq<char>) -> Option<ModelType> {
    if s == "1comp"@ {
        Some(ModelType::OneCompartment)
    } else if s == "2comp"@ {
        Some(ModelType::TwoCompartment)
    } else if s == "3comp"@ {
        Some(ModelType::ThreeCompartment)
    } else {
        None
    }
}

/// The estimation method a word names, if any.
pub open spec fn method_of_word(s: Seq<char>) -> Option<EstimationMethod> {
    if s == "saem"@ {
        Some(EstimationMethod::Saem)
    } else if s == "foce"@ {
        Some(EstimationMethod::Foce)
    } else if s == "foce-i"@ {
        Some(EstimationMethod::FoceI)
    } else {
        None
    }
}

/// Parses one model-type word; an unknown word is rejected.
pub fn parse_model_type(model_str: &str) -> (r: Result<ModelType, String>)
    ensures
        match model_type_of_word(model_str@) {
            Some(mt) => r == Ok::<ModelType, String>(mt),
            None => r matches Err(m) && m@ == "Invalid model type"@,
        },
{
    if model_str.eq("1comp") {
        Ok(ModelType::OneCompartment)
    } else if model_str.eq("2comp") {
        Ok(ModelType::TwoCompartment)
    } else if model_str.eq("3comp") {
        Ok(ModelType::ThreeCompartment)
    } else {
        Err("Invalid model type".to_owned())
    }
}

/// Parses one estimation-method word; an unknown word is rejected.
pub fn parse_estimation_method(method_str: &str) -> (r: Result<EstimationMethod, String>)
    ensures
        match method_of_word(method_str@) {
            Some(m) => r == Ok::<EstimationMethod, String>(m),
            None => r matches Err(msg) && msg@ == "Invalid estimation method"@,
        },
{
    if method_str.eq("saem") {
        Ok(EstimationMethod::Saem)
    } else if method_str.eq("foce") {
        Ok(EstimationMethod::Foce)
    } else if method_str.eq("foce-i") {
        Ok(EstimationMethod::FoceI)
    } else {
        Err("Invalid estimation method".to_owned())
    }
}

/// What a list of model words parses to: `all` anywhere selects every
/// variant; an unknown word rejects the list; otherwise the named variants
/// in first-mention order, and the one-compartment default for an empty
/// list.
pub open spec fn parse_model_types_from(words: Seq<String>, i: int, acc: Seq<ModelType>) -> Result<
    Seq<ModelType>,
    (),
>
    decreases words.len() - i,
{
    if i < 0 || i >= words.len() {
        if acc.len() == 0 {
            Ok(seq![ModelType::OneCompartment])
        } else {
            Ok(acc)
        }
    } else if words[i]@ == "all"@ {
        Ok(
            seq![
                ModelType::OneCompartment,
                ModelType::TwoCompartment,
                ModelType::ThreeCompartment,
            ],
        )
    } else {
        match model_type_of_word(words[i]@) {
            Some(mt) => parse_model_types_from(
                words,
                i + 1,
                if acc.contains(mt) {
                    acc
                } else {
                    acc.push(mt)
                },
            ),
            None => Err(()),
        }
    }
}

/// What a list of method words parses to, in the same shape.
pub open spec fn parse_methods_from(words: Seq<String>, i: int, acc: Seq<EstimationMethod>) -> Result<
    Seq<EstimationMethod>,
    (),
>
    decreases words.len() - i,
{
    if i < 0 || i >= words.len() {
        if acc.len() == 0 {
            Ok(seq![EstimationMethod::Saem])
        } else {
            Ok(acc)
        }
    } else if words[i]@ == "all"@ {
        Ok(seq![EstimationMethod::Saem, EstimationMethod::Foce, EstimationMethod::FoceI])
    } else {
        match method_of_word(words[i]@) {
            Some(m) => parse_methods_from(
                words,
                i + 1,
                if acc.contains(m) {
                    acc
                } else {
                    acc.push(m)
                },
            ),
            None => Err(()),
        }
    }
}

/// Parses a list of model-type words; see `parse_model_types_from`.
pub fn parse_model_types(model_strs: &Vec<String>) -> (r: Result<Vec<ModelType>, String>)
    ensures
        match parse_model_types_from(model_strs@, 0, Seq::empty()) {
            Ok(mts) => r matches Ok(v) && v@ == mts,
            Err(()) => r matches Err(m) && m@ == "Invalid model type"@,
        },
{
    let mut model_types: Vec<ModelType> = Vec::new();
    let n = model_strs.len();
    for i in 0..n
        invariant
            n == model_strs@.len(),
            parse_model_types_from(model_strs@, 0, Seq::empty()) == parse_model_types_from(
                model_strs@,
                i as int,
                model_types@,
            ),
    {
        if model_strs[i].as_str().eq("all") {
            let mut all: Vec<ModelType> = Vec::new();
            all.push(ModelType::OneCompartment);
            all.push(ModelType::TwoCompartment);
            all.push(ModelType::ThreeCompartment);
            proof {
                assert(all@ =~= seq![
                    ModelType::OneCompartment,
                    ModelType::TwoCompartment,
                    ModelType::ThreeCompartment,
                ]);
            }
            return Ok(all);
        }
        let mt = match parse_model_type(model_strs[i].as_str()) {
            Ok(mt) => mt,
            Err(e) => {
                return Err(e);
            },
        };
        let mut seen = false;
        let m = model_types.len();
        for k in 0..m
            invariant
                m == model_types@.len(),
                seen == exists|t: int| 0 <= t < k && model_types@[t] == mt,
        {
            if model_types[k] == mt {
                seen = true;
            }
        }
        proof {
            assert(seen == model_types@.contains(mt));
        }
        if !seen {
            model_types.push(mt);
        }
    }
    if model_types.len() == 0 {
        model_types.push(ModelType::OneCompartment);
        proof {
            assert(model_types@ =~= seq![ModelType::OneCompartment]);
        }
    }
    Ok(model_types)
}

/// Parses a list of estimation-method words; see `parse_methods_from`.
pub fn parse_estimation_methods(method_strs: &Vec<String>) -> (r: Result<
    Vec<EstimationMethod>,
    String,
>)
    ensures
        match parse_methods_from(method_strs@, 0, Seq::empty()) {
            Ok(ms) => r matches Ok(v) && v@ == ms,
            Err(()) => r matches Err(m) && m@ == "Invalid estimation method"@,
        },
{
    let mut methods: Vec<EstimationMethod> = Vec::new();
    let n = method_strs.len();
    for i in 0..n
        invariant
            n == method_strs@.len(),
            parse_methods_from(method_strs@, 0, Seq::empty()) == parse_methods_from(
                method_strs@,
                i as int,
                methods@,
            ),
    {
        if method_strs[i].as_str().eq("all") {
            let mut all: Vec<EstimationMethod> = Vec::new();
            all.push(EstimationMethod::Saem);
            all.push(EstimationMethod::Foce);
            all.push(EstimationMethod::FoceI);
            proof {
                assert(all@ =~= seq![
                    EstimationMethod::Saem,
                    EstimationMethod::Foce,
                    EstimationMethod::FoceI,
                ]);
            }
            return Ok(all);
        }
        let m2 = match parse_estimation_method(method_strs[i].as_str()) {
            Ok(m2) => m2,
            Err(e) => {
                return Err(e);
            },
        };
        let mut seen = false;
        let m = methods.len();
        for k in 0..m
            invariant
                m == methods@.len(),
                seen == exists|t: int| 0 <= t < k && methods@[t] == m2,
        {
            if methods[k] == m2 {
                seen = true;
            }
        }
        proof {
            assert(seen == methods@.contains(m2));
        }
        if !seen {
            methods.push(m2);
        }
    }
    if methods.len() == 0 {
        methods.push(EstimationMethod::Saem);
        proof {
            assert(methods@ =~= seq![EstimationMethod::Saem]);
        }
    }
    Ok(methods)
}

} // verus!
