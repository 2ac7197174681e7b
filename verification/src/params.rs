//! The parameter resolver: a typed table of named material parameters with
//! defaulted lookup.  Lookup is pure; the first binding of a name wins.

use vstd::prelude::*;
use crate::spectrum::Spectrum;

verus! {

/// The names of the material parameters.
#[derive(Clone, Copy, Debug, PartialEq, Eq, Structural)]
pub enum ParamName {
    Color,
    Metallic,
    Eta,
    Roughness,
    SpecularTint,
    Anisotropic,
    Sheen,
    SheenTint,
    Clearcoat,
    ClearcoatGloss,
    SpecTrans,
    ScatterDistance,
    Thin,
    Flatness,
    DiffTrans,
    BumpMap,
}

/// A table of constant parameter bindings, by kind.
pub struct TextureParams {
    pub floats: Vec<(ParamName, i64)>,
    pub spectra: Vec<(ParamName, Spectrum)>,
    pub bools: Vec<(ParamName, bool)>,
}

/// The first float bound to `name`, or `default`.
pub open spec fn spec_find_float(s: Seq<(ParamName, i64)>, name: ParamName, default: i64) -> i64
    decreases s.len(),
{
    if s.len() == 0 {
        default
    } else if s[0].0 == name {
        s[0].1
    } else {
        spec_find_float(s.drop_first(), name, default)
    }
}

/// The first spectrum bound to `name`, or `default`.
pub open spec fn spec_find_spectrum(
    s: Seq<(ParamName, Spectrum)>,
    name: ParamName,
    default: Spectrum,
) -> Spectrum
    decreases s.len(),
{
    if s.len() == 0 {
        default
    } else if s[0].0 == name {
        s[0].1
    } else {
        spec_find_spectrum(s.drop_first(), name, default)
    }
}

/// The first boolean bound to `name`, or `default`.
pub open spec fn spec_find_bool(s: Seq<(ParamName, bool)>, name: ParamName, default: bool) -> bool
    decreases s.len(),
{
    if s.len() == 0 {
        default
    } else if s[0].0 == name {
        s[0].1
    } else {
        spec_find_bool(s.drop_first(), name, default)
    }
}

/// The first float bound to `name`, if any.
pub open spec fn spec_find_float_opt(s: Seq<(ParamName, i64)>, name: ParamName) -> Option<i64>
    decreases s.len(),
{
    if s.len() == 0 {
        None
    } else if s[0].0 == name {
        Some(s[0].1)
    } else {
        spec_find_float_opt(s.drop_first(), name)
    }
}

impl TextureParams {
    /// An empty table: every lookup falls back to its default.
    pub fn new() -> (tp: TextureParams)
        ensures
            tp.floats@.len() == 0,
            tp.spectra@.len() == 0,
            tp.bools@.len() == 0,
    {
        TextureParams { floats: Vec::new(), spectra: Vec::new(), bools: Vec::new() }
    }

    /// Resolves a float parameter against the table, falling back to the
    /// given default when unset.
    pub fn get_float_texture(&self, name: ParamName, default: i64) -> (r: i64)
        ensures
            r == spec_find_float(self.floats@, name, default),
    {
        let n = self.floats.len();
        let mut i: usize = 0;
        proof {
            assert(self.floats@.skip(0) =~= self.floats@);
        }
        while i < n
            invariant
                0 <= i <= n,
                n == self.floats@.len(),
                spec_find_float(self.floats@, name, default) == spec_find_float(
                    self.floats@.skip(i as int),
                    name,
                    default,
                ),
            decreases n - i,
        {
            let e = self.floats[i];
            proof {
                assert(self.floats@.skip(i as int)[0] == self.floats@[i as int]);
                assert(self.floats@.skip(i as int).drop_first() =~= self.floats@.skip(
                    i as int + 1));
            }
            if e.0 == name {
                return e.1;
            }
            i = i + 1;
        }
        proof {
            assert(self.floats@.skip(n as int).len() == 0);
        }
        default
    }

    /// Resolves a spectrum parameter against the table, falling back to
    /// the given default when unset.
    pub fn get_spectrum_texture(&self, name: ParamName, default: Spectrum) -> (r: Spectrum)
        ensures
            r == spec_find_spectrum(self.spectra@, name, default),
    {
        let n = self.spectra.len();
        let mut i: usize = 0;
        proof {
            assert(self.spectra@.skip(0) =~= self.spectra@);
        }
        while i < n
            invariant
                0 <= i <= n,
                n == self.spectra@.len(),
                spec_find_spectrum(self.spectra@, name, default) == spec_find_spectrum(
                    self.spectra@.skip(i as int),
                    name,
                    default,
                ),
            decreases n - i,
        {
            let e = self.spectra[i];
            proof {
                assert(self.spectra@.skip(i as int)[0] == self.spectra@[i as int]);
                assert(self.spectra@.skip(i as int).drop_first() =~= self.spectra@.skip(
                    i as int + 1));
            }
            if e.0 == name {
                return e.1;
            }
            i = i + 1;
        }
        proof {
            assert(self.spectra@.skip(n as int).len() == 0);
        }
        default
    }

    /// Resolves a boolean parameter against the table, falling back to the
    /// given default when unset.
    pub fn find_bool(&self, name: ParamName, default: bool) -> (r: bool)
        ensures
            r == spec_find_bool(self.bools@, name, default),
    {
        let n = self.bools.len();
        let mut i: usize = 0;
        proof {
            assert(self.bools@.skip(0) =~= self.bools@);
        }
        while i < n
            invariant
                0 <= i <= n,
                n == self.bools@.len(),
                spec_find_bool(self.bools@, name, default) == spec_find_bool(
                    self.bools@.skip(i as int),
                    name,
                    default,
                ),
            decreases n - i,
        {
            let e = self.bools[i];
            proof {
                assert(self.bools@.skip(i as int)[0] == self.bools@[i as int]);
                assert(self.bools@.skip(i as int).drop_first() =~= self.bools@.skip(i as int + 1));
            }
            if e.0 == name {
                return e.1;
            }
            i = i + 1;
        }
        proof {
            assert(self.bools@.skip(n as int).len() == 0);
        }
        default
    }

    /// Resolves a float parameter that has no default: absent when unset.
    pub fn get_float_texture_or_null(&self, name: ParamName) -> (r: Option<i64>)
        ensures
            r == spec_find_float_opt(self.floats@, name),
    {
        let n = self.floats.len();
        let mut i: usize = 0;
        proof {
            assert(self.floats@.skip(0) =~= self.floats@);
        }
        while i < n
            invariant
                0 <= i <= n,
                n == self.floats@.len(),
                spec_find_float_opt(self.floats@, name) == spec_find_float_opt(
                    self.floats@.skip(i as int),
                    name,
                ),
            decreases n - i,
        {
            let e = self.floats[i];
            proof {
                assert(self.floats@.skip(i as int)[0] == self.floats@[i as int]);
                assert(self.floats@.skip(i as int).drop_first() =~= self.floats@.skip(
                    i as int + 1));
            }
            if e.0 == name {
                return Some(e.1);
            }
            i = i + 1;
        }
        proof {
            assert(self.floats@.skip(n as int).len() == 0);
        }
        None
    }
}

} // verus!
