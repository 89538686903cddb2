//! Reconciling the answers of replicated targets: each target is asked the
//! same head request, and one of their answers is passed on.

use vstd::prelude::*;
use vstd::std_specs::cmp::PartialEqSpec;
use vstd::std_specs::cmp::PartialEqSpecImpl;

pub use crate::s3_btree::hex;

verus! {

/// A target's answer to a head request as it is compared with the others:
/// the reported content length where the target answered, or the debug text
/// of its error.
pub type HeadOutcome = Result<Option<i64>, String>;

/// The text compared for an answer that is an error.
pub open spec fn error_text(o: HeadOutcome) -> Seq<char> {
    match o {
        Ok(_) => Seq::empty(),
        Err(e) => e@,
    }
}

/// Every target answered with an error.
pub open spec fn all_failed(s: Seq<HeadOutcome>) -> bool {
    forall|i: int| 0 <= i < s.len() ==> #[trigger] s[i] is Err
}

/// All error texts equal the first one.
pub open spec fn failures_agree(s: Seq<HeadOutcome>) -> bool {
    forall|i: int| 0 <= i < s.len() ==> #[trigger] error_text(s[i]) == error_text(s[0])
}

/// Which answer is passed on: where every target failed alike, the first
/// one; where some target answered, the first that did. `None` where there
/// is no answer at all, or where every target failed and not alike.
pub open spec fn head_choice(s: Seq<HeadOutcome>) -> Option<int> {
    if s.len() == 0 {
        None
    } else if all_failed(s) {
        if failures_agree(s) {
            Some(0)
        } else {
            None
        }
    } else {
        Some(first_answer(s))
    }
}

/// The index of the first answer that is not an error (the length where
/// there is none).
pub open spec fn first_answer(s: Seq<HeadOutcome>) -> int
    decreases s.len(),
{
    if s.len() == 0 {
        0
    } else if s[0] is Ok {
        0
    } else {
        1 + first_answer(s.drop_first())
    }
}

proof fn lemma_first_answer(s: Seq<HeadOutcome>)
    ensures
        0 <= first_answer(s) <= s.len(),
        forall|j: int| 0 <= j < first_answer(s) ==> #[trigger] s[j] is Err,
        first_answer(s) < s.len() ==> s[first_answer(s)] is Ok,
    decreases s.len(),
{
    if s.len() > 0 && s[0] is Err {
        lemma_first_answer(s.drop_first());
        assert forall|j: int| 0 <= j < first_answer(s) implies #[trigger] s[j] is Err by {
            if j > 0 {
                assert(s[j] == s.drop_first()[j - 1]);
            }
        }
    }
}

/// Where at least one target answered, the answer passed on is an answer,
/// and every target before it failed.
pub proof fn law_answer_preferred(s: Seq<HeadOutcome>, k: int)
    requires
        0 <= k < s.len(),
        s[k] is Ok,
    ensures
        head_choice(s) matches Some(i) && 0 <= i <= k && s[i] is Ok && forall|j: int|
            0 <= j < i ==> #[trigger] s[j] is Err,
{
    lemma_first_answer(s);
    assert(!all_failed(s));
    if first_answer(s) > k {
        assert(s[k] is Err);
    }
}

/// Where every target answered, the first target's answer is passed on.
pub proof fn law_all_answered(s: Seq<HeadOutcome>)
    requires
        s.len() > 0,
        forall|i: int| 0 <= i < s.len() ==> #[trigger] s[i] is Ok,
    ensures
        head_choice(s) == Some(0int),
{
    assert(s[0] is Ok);
}

/// Where every target failed with the same error, the first failure is
/// passed on; where they failed with different errors, nothing is chosen.
pub proof fn law_all_failed(s: Seq<HeadOutcome>)
    requires
        s.len() > 0,
        all_failed(s),
    ensures
        failures_agree(s) ==> head_choice(s) == Some(0int),
        !failures_agree(s) ==> head_choice(s) is None,
{
}

/// A chosen index always names one of the answers.
pub proof fn law_choice_in_range(s: Seq<HeadOutcome>)
    ensures
        head_choice(s) matches Some(i) ==> 0 <= i < s.len(),
        head_choice(s) is None <==> (s.len() == 0 || (all_failed(s) && !failures_agree(s))),
{
    lemma_first_answer(s);
    if s.len() > 0 && !all_failed(s) {
        let k = choose|k: int| 0 <= k < s.len() && !(#[trigger] s[k] is Err);
        if first_answer(s) >= s.len() {
            assert(s[k] is Err);
        }
    }
}

/// Where every target failed and two of them failed with error texts `a`
/// and `b` that differ in any character, no answer is passed on.
pub proof fn law_failed_differently(s: Seq<HeadOutcome>, i: int, j: int, a: String, b: String)
    requires
        forall|k: int| 0 <= k < s.len() ==> #[trigger] s[k] is Err,
        0 <= i < s.len(),
        0 <= j < s.len(),
        s[i] == Err::<Option<i64>, String>(a),
        s[j] == Err::<Option<i64>, String>(b),
        a@ != b@,
    ensures
        head_choice(s) is None,
{
    assert(all_failed(s));
    if failures_agree(s) {
        assert(error_text(s[i]) == error_text(s[0]));
        assert(error_text(s[j]) == error_text(s[0]));
    }
}

/// Where every target failed with the same error text `a`, the first
/// failure is passed on.
pub proof fn law_failed_alike(s: Seq<HeadOutcome>, a: String)
    requires
        s.len() > 0,
        forall|k: int| 0 <= k < s.len() ==> (#[trigger] s[k] matches Err(e) && e@ == a@),
    ensures
        head_choice(s) == Some(0int),
{
    assert forall|k: int| 0 <= k < s.len() implies #[trigger] s[k] is Err by {
        assert(s[k] matches Err(e) && e@ == a@);
    }
    assert(s[0] matches Err(e) && e@ == a@);
    assert forall|k: int| 0 <= k < s.len() implies #[trigger] error_text(s[k]) == error_text(s[0]) by {
        assert(s[k] matches Err(e) && e@ == a@);
    }
}

/// The text of a failed answer, compared by its characters.
pub struct ErrorText {
    pub text: String,
}

impl PartialEq for ErrorText {
    fn eq(&self, other: &Self) -> (r: bool) {
        self.text == other.text
    }
}

impl PartialEqSpecImpl for ErrorText {
    open spec fn obeys_eq_spec() -> bool {
        true
    }

    open spec fn eq_spec(&self, other: &Self) -> bool {
        self.text@ == other.text@
    }
}

/// Whether every element equals the first; true for an empty slice.
fn all_elements_equal<T: PartialEq>(v: &[T]) -> (r: bool)
    ensures
        T::obeys_eq_spec() ==> (r <==> forall|i: int|
            0 <= i < v@.len() ==> #[trigger] v@[i].eq_spec(&v@[0])),
{
    if v.len() == 0 {
        return true;
    }
    let first = &v[0];
    let mut i: usize = 0;
    while i < v.len()
        invariant
            0 < v@.len(),
            *first == v@[0],
            i <= v@.len(),
            T::obeys_eq_spec() ==> forall|j: int| 0 <= j < i ==> #[trigger] v@[j].eq_spec(&v@[0]),
        decreases v@.len() - i,
    {
        if !(v[i] == *first) {
            return false;
        }
        i = i + 1;
    }
    true
}

/// Chooses which target's answer to a head request is passed on, by the
/// index of that answer; `None` where no answer can be chosen.
pub fn select_head_result(outcomes: &Vec<HeadOutcome>) -> (r: Option<usize>)
    ensures
        match head_choice(outcomes@) {
            Some(i) => r == Some(i as usize),
            None => r is None,
        },
{
    let n = outcomes.len();
    let mut all_ok = true;
    let mut all_err = true;
    let mut i: usize = 0;
    while i < n
        invariant
            n == outcomes@.len(),
            i <= n,
            all_ok <==> forall|j: int| 0 <= j < i ==> #[trigger] outcomes@[j] is Ok,
            all_err <==> forall|j: int| 0 <= j < i ==> #[trigger] outcomes@[j] is Err,
        decreases n - i,
    {
        if outcomes[i].is_ok() {
            all_err = false;
        } else {
            all_ok = false;
        }
        i = i + 1;
    }
    if all_err {
        let mut errs: Vec<ErrorText> = Vec::new();
        let mut k: usize = 0;
        while k < n
            invariant
                n == outcomes@.len(),
                k <= n,
                all_failed(outcomes@),
                errs@.len() == k,
                forall|j: int| 0 <= j < k ==> #[trigger] errs@[j].text@ == error_text(outcomes@[j]),
            decreases n - k,
        {
            match &outcomes[k] {
                Ok(_) => {
                    assert(outcomes@[k as int] is Err);
                },
                Err(e) => {
                    errs.push(ErrorText { text: e.clone() });
                },
            }
            k = k + 1;
        }
        let agree = all_elements_equal(errs.as_slice());
        if agree {
            if n == 0 {
                return None;
            }
            assert(failures_agree(outcomes@)) by {
                assert forall|j: int| 0 <= j < n implies #[trigger] error_text(outcomes@[j])
                    == error_text(outcomes@[0]) by {
                    assert(PartialEqSpec::eq_spec(&errs@[j], &errs@[0]));
                }
            }
            return Some(0);
        } else {
            assert(!failures_agree(outcomes@)) by {
                if failures_agree(outcomes@) {
                    assert forall|j: int| 0 <= j < errs@.len() implies #[trigger] PartialEqSpec::eq_spec(
                        &errs@[j],
                        &errs@[0],
                    ) by {
                        assert(error_text(outcomes@[j]) == error_text(outcomes@[0]));
                    }
                }
            }
        }
    } else if all_ok {
        let mut lengths: Vec<Option<i64>> = Vec::new();
        let mut k: usize = 0;
        while k < n
            invariant
                n == outcomes@.len(),
                k <= n,
                lengths@.len() == k,
            decreases n - k,
        {
            match &outcomes[k] {
                Ok(len) => lengths.push(*len),
                Err(_) => lengths.push(None),
            }
            k = k + 1;
        }
        if all_elements_equal(lengths.as_slice()) {
            proof {
                lemma_first_answer(outcomes@);
            }
            return Some(0);
        }
    }
    let mut p: usize = 0;
    while p < n
        invariant
            n == outcomes@.len(),
            p <= n,
            forall|j: int| 0 <= j < p ==> #[trigger] outcomes@[j] is Err,
        decreases n - p,
    {
        if outcomes[p].is_ok() {
            proof {
                lemma_first_answer(outcomes@);
                if first_answer(outcomes@) < p {
                    assert(outcomes@[first_answer(outcomes@)] is Err);
                }
                if first_answer(outcomes@) > p {
                    assert(outcomes@[p as int] is Err);
                }
            }
            return Some(p);
        }
        p = p + 1;
    }
    proof {
        assert(all_failed(outcomes@));
    }
    None
}

} // verus!
