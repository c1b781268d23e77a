//! The trainable parameters that the optimizer works on.
//!
//! Fitting the kernel trains the kernel's parameters and the noise, which is
//! treated as one more kernel parameter; fitting the prior trains the prior's
//! parameters. The optimizer sees the selected parameters as one flat vector:
//! kernel parameters, then the noise, then prior parameters.

use vstd::prelude::*;

verus! {

/// The flat vector of the parameters selected for training.
pub open spec fn selected<V>(kernel: Seq<V>, noise: V, prior: Seq<V>, fit_kernel: bool, fit_prior: bool) -> Seq<V> {
    (if fit_kernel { kernel.push(noise) } else { Seq::empty() }) + (if fit_prior { prior } else { Seq::empty() })
}

/// The number of parameters selected for training.
pub open spec fn selected_len(nb_kernel: nat, nb_prior: nat, fit_kernel: bool, fit_prior: bool) -> nat {
    (if fit_kernel { nb_kernel + 1 } else { 0nat }) + (if fit_prior { nb_prior } else { 0nat })
}

/// The kernel parameters, noise and prior parameters once the selected ones
/// are replaced by `values`, laid out as `selected` lays them out.
pub open spec fn scattered<V>(
    values: Seq<V>,
    kernel: Seq<V>,
    noise: V,
    prior: Seq<V>,
    fit_kernel: bool,
    fit_prior: bool,
) -> (Seq<V>, V, Seq<V>) {
    let offset: int = if fit_kernel { kernel.len() as int + 1 } else { 0int };
    (
        if fit_kernel { values.subrange(0, kernel.len() as int) } else { kernel },
        if fit_kernel { values[kernel.len() as int] } else { noise },
        if fit_prior { values.subrange(offset, offset + prior.len()) } else { prior },
    )
}

/// Gathers the parameters selected for training into one vector.
pub fn gather_parameters<V: Copy>(
    kernel: &Vec<V>,
    noise: V,
    prior: &Vec<V>,
    fit_kernel: bool,
    fit_prior: bool,
) -> (r: Vec<V>)
    ensures
        r@ == selected(kernel@, noise, prior@, fit_kernel, fit_prior),
{
    let mut r: Vec<V> = Vec::new();
    if fit_kernel {
        let mut i: usize = 0;
        while i < kernel.len()
            invariant
                i <= kernel@.len(),
                r@ == kernel@.subrange(0, i as int),
            decreases kernel@.len() - i,
        {
            r.push(kernel[i]);
            i = i + 1;
            assert(r@ =~= kernel@.subrange(0, i as int));
        }
        assert(kernel@.subrange(0, kernel@.len() as int) =~= kernel@);
        r.push(noise);
    }
    let ghost head = r@;
    if fit_prior {
        let mut i: usize = 0;
        while i < prior.len()
            invariant
                i <= prior@.len(),
                r@ == head + prior@.subrange(0, i as int),
            decreases prior@.len() - i,
        {
            r.push(prior[i]);
            i = i + 1;
            assert(r@ =~= head + prior@.subrange(0, i as int));
        }
        assert(prior@.subrange(0, prior@.len() as int) =~= prior@);
    }
    assert(r@ =~= selected(kernel@, noise, prior@, fit_kernel, fit_prior));
    r
}

/// Writes `values`, laid out as `gather_parameters` lays them out, back into
/// the selected parameters; the others keep their values.
pub fn scatter_parameters<V: Copy>(
    values: &Vec<V>,
    kernel: &mut Vec<V>,
    noise: &mut V,
    prior: &mut Vec<V>,
    fit_kernel: bool,
    fit_prior: bool,
)
    requires
        values@.len() == selected_len(old(kernel)@.len(), old(prior)@.len(), fit_kernel, fit_prior),
    ensures
        (final(kernel)@, *final(noise), final(prior)@) == scattered(
            values@,
            old(kernel)@,
            *old(noise),
            old(prior)@,
            fit_kernel,
            fit_prior,
        ),
{
    let nv = values.len();
    let mut offset: usize = 0;
    if fit_kernel {
        let nk = kernel.len();
        let mut i: usize = 0;
        while i < nk
            invariant
                nk == kernel@.len() == old(kernel)@.len(),
                nv == values@.len(),
                i <= nk,
                values@.len() == selected_len(nk as nat, old(prior)@.len(), fit_kernel, fit_prior),
                fit_kernel,
                forall|j: int| 0 <= j < i ==> #[trigger] kernel@[j] == values@[j],
            decreases nk - i,
        {
            kernel.set(i, values[i]);
            i = i + 1;
        }
        assert(kernel@ =~= values@.subrange(0, nk as int));
        *noise = values[nk];
        offset = nk + 1;
    }
    if fit_prior {
        let np = prior.len();
        let mut i: usize = 0;
        while i < np
            invariant
                np == prior@.len() == old(prior)@.len(),
                nv == values@.len(),
                i <= np,
                offset == (if fit_kernel { old(kernel)@.len() + 1 } else { 0 }),
                values@.len() == selected_len(old(kernel)@.len(), np as nat, fit_kernel, fit_prior),
                fit_prior,
                forall|j: int| 0 <= j < i ==> #[trigger] prior@[j] == values@[offset + j],
            decreases np - i,
        {
            prior.set(i, values[offset + i]);
            i = i + 1;
        }
        assert(prior@ =~= values@.subrange(offset as int, offset + np));
    }
}

/// Writing back the selected parameters as they were gathered changes nothing.
pub proof fn lemma_scatter_gathered<V>(kernel: Seq<V>, noise: V, prior: Seq<V>, fit_kernel: bool, fit_prior: bool)
    ensures
        scattered(selected(kernel, noise, prior, fit_kernel, fit_prior), kernel, noise, prior, fit_kernel, fit_prior)
            == (kernel, noise, prior),
{
    let v = selected(kernel, noise, prior, fit_kernel, fit_prior);
    if fit_kernel {
        assert(v.subrange(0, kernel.len() as int) =~= kernel);
        assert(v[kernel.len() as int] == noise);
    }
    if fit_prior {
        let offset: int = if fit_kernel { kernel.len() as int + 1 } else { 0int };
        assert(v.subrange(offset, offset + prior.len()) =~= prior);
    }
}

/// Gathering after writing back a vector of the right length gives that
/// vector again.
pub proof fn lemma_gather_scattered<V>(
    values: Seq<V>,
    kernel: Seq<V>,
    noise: V,
    prior: Seq<V>,
    fit_kernel: bool,
    fit_prior: bool,
)
    requires
        values.len() == selected_len(kernel.len(), prior.len(), fit_kernel, fit_prior),
    ensures
        ({
            let (k, n, p) = scattered(values, kernel, noise, prior, fit_kernel, fit_prior);
            selected(k, n, p, fit_kernel, fit_prior) == values
        }),
{
    let (k, n, p) = scattered(values, kernel, noise, prior, fit_kernel, fit_prior);
    assert(selected(k, n, p, fit_kernel, fit_prior) =~= values);
}

} // verus!
