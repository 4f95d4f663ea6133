//! Seeded random draws for the Metropolis-Hastings sampler.
//!
//! A stream owns a `StdRng` seeded from a `u64` and hands out one draw per
//! call, counting its position.  `StdRng` is a deterministic, portable
//! generator: for a fixed crate version the whole draw sequence is a pure
//! function of the seed, so the `i`-th draw of a stream can be named as an
//! uninterpreted function of `(seed, i)`, which is what makes a whole
//! estimation run with a fixed seed provably reproducible.  Each stream
//! samples a single distribution, so the position alone determines where in
//! the underlying sequence a draw sits.

use vstd::prelude::*;

use crate::fp::F_SIGN_MASK;

verus! {

/// The seeded standard random generator of the rand crate.
#[verifier::external_type_specification]
#[verifier::external_body]
pub struct ExStdRng(rand::rngs::StdRng);

/// The `pos`-th standard-normal draw from a `StdRng` seeded with `seed`.
pub uninterp spec fn normal_draw(seed: u64, pos: int) -> u64;

/// The `pos`-th uniform draw in `[0, 1)` from a `StdRng` seeded with `seed`.
pub uninterp spec fn uniform_draw(seed: u64, pos: int) -> u64;

/// A stream of standard-normal draws from a seeded generator.  The fields
/// are private so that no caller can reseat the generator or the position
/// and void the draw contracts; contracts speak through the spec views.
pub struct NormalStream {
    rng: rand::rngs::StdRng,
    seed: u64,
    pos: u64,
}

/// A stream of uniform draws in `[0, 1)` from a seeded generator, shaped as
/// the normal stream is.
pub struct UniformStream {
    rng: rand::rngs::StdRng,
    seed: u64,
    pos: u64,
}

impl NormalStream {
    /// The seed the stream was built from.
    pub closed spec fn seed_spec(&self) -> u64 {
        self.seed
    }

    /// How many draws the stream has handed out.
    pub closed spec fn pos_spec(&self) -> u64 {
        self.pos
    }

    /// Relies on `StdRng::seed_from_u64`: the generator state is a function
    /// of the seed alone.
    #[verifier::external_body]
    pub fn new(seed: u64) -> (r: Self)
        ensures
            r.seed_spec() == seed,
            r.pos_spec() == 0,
    {
        NormalStream { rng: rand::SeedableRng::seed_from_u64(seed), seed, pos: 0 }
    }

    /// Relies on `Rng::sample` with `rand_distr::StandardNormal`: with the
    /// generator seeded from `seed` and advanced by `pos` earlier draws, the
    /// sample is the fixed `pos`-th value of the seed's normal sequence.
    /// (`one.mul_add(x, -0.0)` is the exact identity that gives the sample
    /// its floating type without naming it; the bits pass through
    /// `bytemuck::cast` unchanged.)
    #[verifier::external_body]
    fn raw_next(&mut self) -> (r: u64)
        ensures
            r == normal_draw(old(self).seed_spec(), old(self).pos_spec() as int),
            final(self).seed_spec() == old(self).seed_spec(),
            final(self).pos_spec() == old(self).pos_spec(),
    {
        let one = std::time::Duration::from_secs(1).as_secs_f64();
        let z = rand::Rng::sample(&mut self.rng, rand_distr::StandardNormal);
        let r: u64 = bytemuck::cast(one.mul_add(z, bytemuck::cast(F_SIGN_MASK)));
        r
    }

    /// The next draw of the stream; the position advances by one.
    pub fn next_normal(&mut self) -> (r: u64)
        requires
            old(self).pos_spec() < u64::MAX,
        ensures
            r == normal_draw(old(self).seed_spec(), old(self).pos_spec() as int),
            final(self).seed_spec() == old(self).seed_spec(),
            final(self).pos_spec() == old(self).pos_spec() + 1,
    {
        let r = self.raw_next();
        self.pos = self.pos + 1;
        r
    }
}

impl UniformStream {
    /// The seed the stream was built from.
    pub closed spec fn seed_spec(&self) -> u64 {
        self.seed
    }

    /// How many draws the stream has handed out.
    pub closed spec fn pos_spec(&self) -> u64 {
        self.pos
    }

    /// Relies on `StdRng::seed_from_u64`: the generator state is a function
    /// of the seed alone.
    #[verifier::external_body]
    pub fn new(seed: u64) -> (r: Self)
        ensures
            r.seed_spec() == seed,
            r.pos_spec() == 0,
    {
        UniformStream { rng: rand::SeedableRng::seed_from_u64(seed), seed, pos: 0 }
    }

    /// Relies on `Rng::gen` for a unit-interval value: with the generator
    /// seeded from `seed` and advanced by `pos` earlier draws, the sample is
    /// the fixed `pos`-th value of the seed's uniform sequence.
    /// (`one.mul_add(x, -0.0)` is the exact identity that gives the sample
    /// its floating type without naming it.)
    #[verifier::external_body]
    fn raw_next(&mut self) -> (r: u64)
        ensures
            r == uniform_draw(old(self).seed_spec(), old(self).pos_spec() as int),
            final(self).seed_spec() == old(self).seed_spec(),
            final(self).pos_spec() == old(self).pos_spec(),
    {
        let one = std::time::Duration::from_secs(1).as_secs_f64();
        let u = rand::Rng::gen(&mut self.rng);
        let r: u64 = bytemuck::cast(one.mul_add(u, bytemuck::cast(F_SIGN_MASK)));
        r
    }

    /// The next draw of the stream; the position advances by one.
    pub fn next_uniform(&mut self) -> (r: u64)
        requires
            old(self).pos_spec() < u64::MAX,
        ensures
            r == uniform_draw(old(self).seed_spec(), old(self).pos_spec() as int),
            final(self).seed_spec() == old(self).seed_spec(),
            final(self).pos_spec() == old(self).pos_spec() + 1,
    {
        let r = self.raw_next();
        self.pos = self.pos + 1;
        r
    }
}

/// Relies on `rand::random`: a seed drawn from the thread-local generator,
/// for runs that asked for no fixed seed.  Nothing is promised of it.
#[verifier::external_body]
pub fn entropy_seed() -> u64 {
    rand::random()
}

} // verus!
