use vstd::prelude::*;
use vstd::string::StrSliceExecFns;

verus! {

/// The detection-mode flag set used by default: the engine's complex mode.
pub const ANPR_DETECTCOMPLEXMODE: i32 = 6;

/// IEEE-754 bit pattern of the default tuning coefficient 90.0.
pub const DEFAULT_COEFFICIENT_BITS: u64 = 0x4056800000000000;

/// Raised when a version string holds an embedded NUL and so cannot be handed
/// to the engine as a C string.
#[derive(Debug, Clone, Copy, PartialEq, Eq, Structural)]
pub struct EncodingError {
    /// Character position of the first NUL.
    pub position: usize,
}

/// Per-call configuration handed to the engine.
///
/// The tuning coefficients are carried as the bit patterns of `f64` values and
/// the custom-data handle as an address: the library never reads either, it
/// only passes them through.
pub struct AnprOptions {
    pub min_plate_size: i32,
    pub max_plate_size: i32,
    pub detect_mode: i32,
    pub max_text_size: i32,
    pub type_number: i32,
    pub flags: i32,
    pub custom: usize,
    pub vers: String,
    pub alpha: u64,
    pub beta: u64,
    pub gamma: u64,
    pub max_threads: i32,
}

/// The version string holds no NUL character.
pub open spec fn nul_free(s: Seq<char>) -> bool {
    forall|i: int| 0 <= i < s.len() ==> s[i] != '\0'
}

impl AnprOptions {
    /// The default values: areas 500..50000, complex detection mode,
    /// text length 20, type 104, version "1.6.0", coefficients 90.0, one thread.
    pub open spec fn has_defaults(&self) -> bool {
        &&& self.min_plate_size == 500
        &&& self.max_plate_size == 50000
        &&& self.detect_mode == ANPR_DETECTCOMPLEXMODE
        &&& self.max_text_size == 20
        &&& self.type_number == 104
        &&& self.flags == 0
        &&& self.custom == 0
        &&& self.vers@ == "1.6.0"@
        &&& self.alpha == DEFAULT_COEFFICIENT_BITS
        &&& self.beta == DEFAULT_COEFFICIENT_BITS
        &&& self.gamma == DEFAULT_COEFFICIENT_BITS
        &&& self.max_threads == 1
    }

    /// Every field of `self` but the version string equals that of `o`.
    pub open spec fn same_numbers(&self, o: &AnprOptions) -> bool {
        &&& self.min_plate_size == o.min_plate_size
        &&& self.max_plate_size == o.max_plate_size
        &&& self.detect_mode == o.detect_mode
        &&& self.max_text_size == o.max_text_size
        &&& self.type_number == o.type_number
        &&& self.flags == o.flags
        &&& self.custom == o.custom
        &&& self.alpha == o.alpha
        &&& self.beta == o.beta
        &&& self.gamma == o.gamma
        &&& self.max_threads == o.max_threads
    }

    /// The version string is a valid C string.
    pub open spec fn wf(&self) -> bool {
        nul_free(self.vers@)
    }

    pub fn with_min_plate_size(self, min_plate_size: i32) -> (r: Self)
        ensures
            r == (AnprOptions { min_plate_size, ..self }),
    {
        AnprOptions { min_plate_size, ..self }
    }

    pub fn with_max_plate_size(self, max_plate_size: i32) -> (r: Self)
        ensures
            r == (AnprOptions { max_plate_size, ..self }),
    {
        AnprOptions { max_plate_size, ..self }
    }

    pub fn with_detect_mode(self, detect_mode: i32) -> (r: Self)
        ensures
            r == (AnprOptions { detect_mode, ..self }),
    {
        AnprOptions { detect_mode, ..self }
    }

    pub fn with_max_text_size(self, max_text_size: i32) -> (r: Self)
        ensures
            r == (AnprOptions { max_text_size, ..self }),
    {
        AnprOptions { max_text_size, ..self }
    }

    pub fn with_type_number(self, type_number: i32) -> (r: Self)
        ensures
            r == (AnprOptions { type_number, ..self }),
    {
        AnprOptions { type_number, ..self }
    }

    pub fn with_flags(self, flags: i32) -> (r: Self)
        ensures
            r == (AnprOptions { flags, ..self }),
    {
        AnprOptions { flags, ..self }
    }

    /// Sets the opaque custom-data handle (an address the engine interprets).
    pub fn with_custom(self, custom: usize) -> (r: Self)
        ensures
            r == (AnprOptions { custom, ..self }),
    {
        AnprOptions { custom, ..self }
    }

    /// Sets the version string; fails when it holds an embedded NUL.
    pub fn with_vers(self, vers: &str) -> (r: Result<Self, EncodingError>)
        ensures
            nul_free(vers@) ==> (r matches Ok(o) && o.vers@ == vers@ && o.same_numbers(&self)),
            !nul_free(vers@) ==> (r matches Err(e) && e.position < vers@.len()
                && vers@[e.position as int] == '\0'
                && nul_free(vers@.take(e.position as int))),
    {
        let n = vers.unicode_len();
        let mut i: usize = 0;
        while i < n
            invariant
                n == vers@.len(),
                i <= n,
                nul_free(vers@.take(i as int)),
            decreases n - i,
        {
            if vers.get_char(i) == '\0' {
                return Err(EncodingError { position: i });
            }
            i = i + 1;
            assert(vers@.take(i as int) =~= vers@.take(i as int - 1).push(vers@[i as int - 1]));
        }
        assert(vers@.take(n as int) =~= vers@);
        Ok(AnprOptions { vers: String::from_str(vers), ..self })
    }

    /// Sets the first tuning coefficient (the bit pattern of an `f64`).
    pub fn with_alpha(self, alpha: u64) -> (r: Self)
        ensures
            r == (AnprOptions { alpha, ..self }),
    {
        AnprOptions { alpha, ..self }
    }

    /// Sets the second tuning coefficient (the bit pattern of an `f64`).
    pub fn with_beta(self, beta: u64) -> (r: Self)
        ensures
            r == (AnprOptions { beta, ..self }),
    {
        AnprOptions { beta, ..self }
    }

    /// Sets the third tuning coefficient (the bit pattern of an `f64`).
    pub fn with_gamma(self, gamma: u64) -> (r: Self)
        ensures
            r == (AnprOptions { gamma, ..self }),
    {
        AnprOptions { gamma, ..self }
    }

    pub fn with_max_threads(self, max_threads: i32) -> (r: Self)
        ensures
            r == (AnprOptions { max_threads, ..self }),
    {
        AnprOptions { max_threads, ..self }
    }

    /// Whether the configured plate type belongs to the given set of
    /// full-colour types.
    pub fn is_full_type(&self, full_types: &[i32]) -> (r: bool)
        ensures
            r == full_types@.contains(self.type_number),
    {
        let mut i: usize = 0;
        while i < full_types.len()
            invariant
                i <= full_types@.len(),
                forall|j: int| 0 <= j < i ==> full_types@[j] != self.type_number,
            decreases full_types@.len() - i,
        {
            if full_types[i] == self.type_number {
                return true;
            }
            i = i + 1;
        }
        false
    }
}

impl Default for AnprOptions {
    fn default() -> (r: Self)
        ensures
            r.has_defaults(),
            r.wf(),
    {
        let vers = String::from_str("1.6.0");
        proof {
            reveal_strlit("1.6.0");
        }
        assert(nul_free(vers@));
        AnprOptions {
            min_plate_size: 500,
            max_plate_size: 50000,
            detect_mode: ANPR_DETECTCOMPLEXMODE,
            max_text_size: 20,
            type_number: 104,
            flags: 0,
            custom: 0,
            vers,
            alpha: DEFAULT_COEFFICIENT_BITS,
            beta: DEFAULT_COEFFICIENT_BITS,
            gamma: DEFAULT_COEFFICIENT_BITS,
            max_threads: 1,
        }
    }
}

} // verus!
