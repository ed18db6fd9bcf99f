//! Random password generation from a configurable character set.
use vstd::prelude::*;
use rand::Rng;
use crate::text::{any_char_in, chars_of, has_char_from, push_char, str_has_char, string_of};

verus! {

/// What a generated password is made of.
#[derive(Debug, Clone)]
pub struct PasswordConfig {
    pub length: usize,
    pub use_uppercase: bool,
    pub use_lowercase: bool,
    pub use_digits: bool,
    pub use_symbols: bool,
    /// Leave out the characters that are easily confused (`0`, `O`, `1`, `l`, `I`).
    pub exclude_ambiguous: bool,
}

pub const LOWERCASE: &'static str = "abcdefghijklmnopqrstuvwxyz";

pub const UPPERCASE: &'static str = "ABCDEFGHIJKLMNOPQRSTUVWXYZ";

pub const DIGITS: &'static str = "0123456789";

pub const SYMBOLS: &'static str = "!@#$%^&*()_+-=[]{}|;:,.<>?";

pub const AMBIGUOUS_CHARS: &'static str = "0O1lI";

/// Number of random drafts tried before the last draft is completed by hand.
pub const MAX_DRAFTS: u64 = 1_000_000;

/// The configuration used when none is given: 16 characters of every class,
/// ambiguous characters left out.
pub open spec fn default_config() -> PasswordConfig {
    PasswordConfig {
        length: 16,
        use_uppercase: true,
        use_lowercase: true,
        use_digits: true,
        use_symbols: true,
        exclude_ambiguous: true,
    }
}

impl Default for PasswordConfig {
    fn default() -> (c: Self)
        ensures
            c == default_config(),
    {
        PasswordConfig {
            length: 16,
            use_uppercase: true,
            use_lowercase: true,
            use_digits: true,
            use_symbols: true,
            exclude_ambiguous: true,
        }
    }
}

/// Whether a character is one of the ambiguous ones.
pub open spec fn is_ambiguous(c: char) -> bool {
    AMBIGUOUS_CHARS@.contains(c)
}

/// The filter that keeps the unambiguous characters.
pub open spec fn unambiguous() -> spec_fn(char) -> bool {
    |ch: char| !is_ambiguous(ch)
}

/// The characters a password may be drawn from: the enabled classes in the order
/// lowercase, uppercase, digits, symbols, without the ambiguous ones if asked.
pub open spec fn charset_spec(c: PasswordConfig) -> Seq<char> {
    let all = (if c.use_lowercase { LOWERCASE@ } else { Seq::empty() }) + (if c.use_uppercase {
        UPPERCASE@
    } else {
        Seq::empty()
    }) + (if c.use_digits { DIGITS@ } else { Seq::empty() }) + (if c.use_symbols {
        SYMBOLS@
    } else {
        Seq::empty()
    });
    if c.exclude_ambiguous {
        all.filter(unambiguous())
    } else {
        all
    }
}

/// The message a configuration is refused with, if it is refused.
pub open spec fn validation_error(c: PasswordConfig) -> Option<Seq<char>> {
    if c.length < 4 {
        Some("La longueur minimale est de 4 caractères"@)
    } else if c.length > 128 {
        Some("La longueur maximale est de 128 caractères"@)
    } else if !c.use_lowercase && !c.use_uppercase && !c.use_digits && !c.use_symbols {
        Some("Au moins un type de caractère doit être activé"@)
    } else {
        None
    }
}

/// Every enabled class of characters occurs in the password.
pub open spec fn covers_classes(c: PasswordConfig, p: Seq<char>) -> bool {
    &&& c.use_lowercase ==> has_char_from(p, LOWERCASE@)
    &&& c.use_uppercase ==> has_char_from(p, UPPERCASE@)
    &&& c.use_digits ==> has_char_from(p, DIGITS@)
    &&& c.use_symbols ==> has_char_from(p, SYMBOLS@)
}

/// A password that the configuration allows: the right length, drawn from the
/// character set, with every enabled class present.
pub open spec fn acceptable_password(c: PasswordConfig, p: Seq<char>) -> bool {
    &&& p.len() == c.length
    &&& forall|i: int| 0 <= i < p.len() ==> charset_spec(c).contains(#[trigger] p[i])
    &&& covers_classes(c, p)
}

/// The password spelled by the given draws: one index into the character set per position.
pub open spec fn password_from_draws(charset: Seq<char>, draws: Seq<usize>) -> Seq<char> {
    Seq::new(draws.len(), |i: int| charset[draws[i] as int])
}

/// Trusted: `rand::thread_rng().gen_range(0..n)`. Only the range of the result is
/// claimed; the value itself is chance. `gen_range` panics on an empty range.
#[verifier::external_body]
fn random_below(n: usize) -> (r: usize)
    requires
        n > 0,
    ensures
        r < n,
{
    rand::thread_rng().gen_range(0..n)
}

impl PasswordConfig {
    /// The default configuration with another length.
    pub fn new(length: usize) -> (c: Self)
        ensures
            c == (PasswordConfig { length, ..default_config() }),
    {
        PasswordConfig { length, ..Default::default() }
    }

    /// The character set of this configuration.
    pub fn build_charset(&self) -> (s: String)
        ensures
            s@ == charset_spec(*self),
    {
        let mut charset = String::new();
        if self.use_lowercase {
            charset.append(LOWERCASE);
        }
        if self.use_uppercase {
            charset.append(UPPERCASE);
        }
        if self.use_digits {
            charset.append(DIGITS);
        }
        if self.use_symbols {
            charset.append(SYMBOLS);
        }
        let ghost all = charset@;
        assert(all =~= (if self.use_lowercase { LOWERCASE@ } else { Seq::empty() }) + (
        if self.use_uppercase {
            UPPERCASE@
        } else {
            Seq::empty()
        }) + (if self.use_digits { DIGITS@ } else { Seq::empty() }) + (if self.use_symbols {
            SYMBOLS@
        } else {
            Seq::empty()
        }));
        if self.exclude_ambiguous {
            let ghost pred = unambiguous();
            let chars = chars_of(charset.as_str());
            let mut kept = String::new();
            let mut i: usize = 0;
            while i < chars.len()
                invariant
                    chars@ == all,
                    pred == unambiguous(),
                    i <= chars@.len(),
                    kept@ == all.subrange(0, i as int).filter(pred),
                decreases chars@.len() - i,
            {
                let ch = chars[i];
                proof {
                    all.subrange(0, i as int).lemma_filter_push(ch, pred);
                    assert(all.subrange(0, i + 1) =~= all.subrange(0, i as int).push(ch));
                }
                if !str_has_char(AMBIGUOUS_CHARS, ch) {
                    push_char(&mut kept, ch);
                }
                i += 1;
            }
            assert(all.subrange(0, all.len() as int) =~= all);
            kept
        } else {
            charset
        }
    }

    /// Checks the length bounds (4 to 128) and that some class is enabled.
    pub fn validate(&self) -> (r: Result<(), String>)
        ensures
            match r {
                Ok(()) => validation_error(*self) is None,
                Err(m) => validation_error(*self) == Some(m@),
            },
    {
        if self.length < 4 {
            return Err("La longueur minimale est de 4 caractères".to_string());
        }
        if self.length > 128 {
            return Err("La longueur maximale est de 128 caractères".to_string());
        }
        if !self.use_lowercase && !self.use_uppercase && !self.use_digits && !self.use_symbols {
            return Err("Au moins un type de caractère doit être activé".to_string());
        }
        Ok(())
    }
}

/// The password spelled by `draws` over `charset`.
pub fn spell_password(charset: &[char], draws: &[usize]) -> (p: Vec<char>)
    requires
        forall|i: int| 0 <= i < draws@.len() ==> (#[trigger] draws@[i]) < charset@.len(),
    ensures
        p@ == password_from_draws(charset@, draws@),
{
    let mut p: Vec<char> = Vec::new();
    let mut i: usize = 0;
    while i < draws.len()
        invariant
            i <= draws@.len(),
            forall|k: int| 0 <= k < draws@.len() ==> (#[trigger] draws@[k]) < charset@.len(),
            p@ == password_from_draws(charset@, draws@.subrange(0, i as int)),
        decreases draws@.len() - i,
    {
        p.push(charset[draws[i]]);
        i += 1;
        assert(p@ =~= password_from_draws(charset@, draws@.subrange(0, i as int)));
    }
    assert(draws@.subrange(0, draws@.len() as int) =~= draws@);
    p
}

/// Whether a drafted password holds every enabled class of the configuration.
pub fn covers_all_classes(config: &PasswordConfig, p: &[char]) -> (r: bool)
    ensures
        r == covers_classes(*config, p@),
{
    if config.use_lowercase && !any_char_in(p, LOWERCASE) {
        return false;
    }
    if config.use_uppercase && !any_char_in(p, UPPERCASE) {
        return false;
    }
    if config.use_digits && !any_char_in(p, DIGITS) {
        return false;
    }
    if config.use_symbols && !any_char_in(p, SYMBOLS) {
        return false;
    }
    true
}

/// Generates a random password for the configuration.
///
/// Each draft picks every position uniformly from the character set; a draft that
/// misses an enabled class is thrown away and drawn again. After `MAX_DRAFTS`
/// rejected drafts (which no real run reaches) the last draft is completed by
/// writing one character of each enabled class at its first positions, so that the
/// function always ends.
pub fn generate_password(config: &PasswordConfig) -> (r: Result<String, String>)
    ensures
        match r {
            Ok(p) => validation_error(*config) is None && acceptable_password(*config, p@),
            Err(m) => validation_error(*config) == Some(m@),
        },
{
    match config.validate() {
        Ok(()) => {},
        Err(m) => {
            return Err(m);
        },
    }
    let charset = config.build_charset();
    proof {
        lemma_class_witnesses(*config);
    }
    if charset.as_str().unicode_len() == 0 {
        return Err("Le jeu de caractères est vide".to_string());
    }
    let charset_chars = chars_of(charset.as_str());
    let n = charset_chars.len();
    let mut attempt: u64 = 0;
    loop
        invariant
            charset_chars@ == charset_spec(*config),
            n == charset_chars@.len(),
            n > 0,
            validation_error(*config) is None,
            attempt < MAX_DRAFTS,
        decreases MAX_DRAFTS - attempt,
    {
        let mut draws: Vec<usize> = Vec::new();
        let mut k: usize = 0;
        while k < config.length
            invariant
                n > 0,
                k <= config.length,
                draws@.len() == k,
                forall|i: int| 0 <= i < draws@.len() ==> (#[trigger] draws@[i]) < n,
            decreases config.length - k,
        {
            draws.push(random_below(n));
            k += 1;
        }
        let candidate = spell_password(charset_chars.as_slice(), draws.as_slice());
        assert forall|i: int| 0 <= i < candidate@.len() implies charset_spec(*config).contains(
            #[trigger] candidate@[i],
        ) by {
            assert(charset_chars@[draws@[i] as int] == candidate@[i]);
        }
        if covers_all_classes(config, candidate.as_slice()) {
            return Ok(string_of(candidate.as_slice()));
        }
        attempt += 1;
        if attempt == MAX_DRAFTS {
            let completed = complete_draft(config, &candidate);
            return Ok(string_of(completed.as_slice()));
        }
    }
}

/// Writes one character of each enabled class over the first positions of a draft.
fn complete_draft(config: &PasswordConfig, draft: &Vec<char>) -> (p: Vec<char>)
    requires
        validation_error(*config) is None,
        draft@.len() == config.length,
        forall|i: int| 0 <= i < draft@.len() ==> charset_spec(*config).contains(#[trigger] draft@[i]),
    ensures
        acceptable_password(*config, p@),
{
    proof {
        lemma_class_witnesses(*config);
    }
    let mut w: Vec<char> = Vec::new();
    if config.use_lowercase {
        w.push('a');
    }
    let ghost n1 = w@.len();
    if config.use_uppercase {
        w.push('A');
    }
    let ghost n2 = w@.len();
    if config.use_digits {
        w.push('2');
    }
    let ghost n3 = w@.len();
    if config.use_symbols {
        w.push('!');
    }
    assert(config.use_lowercase ==> w@[0] == 'a');
    assert(config.use_uppercase ==> w@[n1 as int] == 'A');
    assert(config.use_digits ==> w@[n2 as int] == '2');
    assert(config.use_symbols ==> w@[n3 as int] == '!');
    assert(forall|i: int| 0 <= i < w@.len() ==> charset_spec(*config).contains(#[trigger] w@[i]));
    let mut p = w.clone();
    let mut i: usize = w.len();
    while i < draft.len()
        invariant
            w@.len() <= i <= draft@.len(),
            p@.len() == i,
            forall|k: int| 0 <= k < w@.len() ==> #[trigger] p@[k] == w@[k],
            forall|k: int| 0 <= k < p@.len() ==> charset_spec(*config).contains(#[trigger] p@[k]),
            forall|k: int| 0 <= k < draft@.len() ==> charset_spec(*config).contains(#[trigger] draft@[k]),
        decreases draft@.len() - i,
    {
        p.push(draft[i]);
        i += 1;
    }
    proof {
        if config.use_lowercase {
            assert(LOWERCASE@.contains(p@[0]));
        }
        if config.use_uppercase {
            assert(UPPERCASE@.contains(p@[n1 as int]));
        }
        if config.use_digits {
            assert(DIGITS@.contains(p@[n2 as int]));
        }
        if config.use_symbols {
            assert(SYMBOLS@.contains(p@[n3 as int]));
        }
    }
    p
}

/// Each enabled class has a character in the character set that stands for it:
/// `a`, `A`, `2` and `!`, none of them ambiguous.
proof fn lemma_class_witnesses(c: PasswordConfig)
    ensures
        LOWERCASE@.contains('a'),
        UPPERCASE@.contains('A'),
        DIGITS@.contains('2'),
        SYMBOLS@.contains('!'),
        c.use_lowercase ==> charset_spec(c).contains('a'),
        c.use_uppercase ==> charset_spec(c).contains('A'),
        c.use_digits ==> charset_spec(c).contains('2'),
        c.use_symbols ==> charset_spec(c).contains('!'),
        (c.use_lowercase || c.use_uppercase || c.use_digits || c.use_symbols) ==> charset_spec(c).len() > 0,
{
    reveal_strlit("abcdefghijklmnopqrstuvwxyz");
    reveal_strlit("ABCDEFGHIJKLMNOPQRSTUVWXYZ");
    reveal_strlit("0123456789");
    reveal_strlit("!@#$%^&*()_+-=[]{}|;:,.<>?");
    reveal_strlit("0O1lI");
    assert(LOWERCASE@[0] == 'a');
    assert(UPPERCASE@[0] == 'A');
    assert(DIGITS@[2] == '2');
    assert(SYMBOLS@[0] == '!');
    assert(!is_ambiguous('a'));
    assert(!is_ambiguous('A'));
    assert(!is_ambiguous('2'));
    assert(!is_ambiguous('!'));
    let lo = if c.use_lowercase { LOWERCASE@ } else { Seq::<char>::empty() };
    let up = if c.use_uppercase { UPPERCASE@ } else { Seq::<char>::empty() };
    let di = if c.use_digits { DIGITS@ } else { Seq::<char>::empty() };
    let sy = if c.use_symbols { SYMBOLS@ } else { Seq::<char>::empty() };
    let all = lo + up + di + sy;
    let pred = unambiguous();
    if c.use_lowercase {
        assert(all[0] == 'a');
        all.lemma_filter_contains(pred, 0);
    }
    if c.use_uppercase {
        assert(all[lo.len() as int] == 'A');
        all.lemma_filter_contains(pred, lo.len() as int);
    }
    if c.use_digits {
        assert(all[(lo.len() + up.len() + 2) as int] == '2');
        all.lemma_filter_contains(pred, (lo.len() + up.len() + 2) as int);
    }
    if c.use_symbols {
        assert(all[(lo.len() + up.len() + di.len()) as int] == '!');
        all.lemma_filter_contains(pred, (lo.len() + up.len() + di.len()) as int);
    }
}

/// Law (ambiguous characters stay out when asked): a password the configuration
/// accepts has none of `0`, `O`, `1`, `l`, `I` if the configuration excludes them.
pub proof fn lemma_no_ambiguous_when_excluded(c: PasswordConfig, p: Seq<char>, i: int)
    requires
        acceptable_password(c, p),
        c.exclude_ambiguous,
        0 <= i < p.len(),
    ensures
        !is_ambiguous(p[i]),
{
    let all = (if c.use_lowercase { LOWERCASE@ } else { Seq::<char>::empty() }) + (if c.use_uppercase {
        UPPERCASE@
    } else {
        Seq::<char>::empty()
    }) + (if c.use_digits { DIGITS@ } else { Seq::<char>::empty() }) + (if c.use_symbols {
        SYMBOLS@
    } else {
        Seq::<char>::empty()
    });
    let f = all.filter(unambiguous());
    assert(f.contains(p[i]));
    let j = choose|j: int| 0 <= j < f.len() && f[j] == p[i];
    all.lemma_filter_pred(unambiguous(), j);
}

/// Law (only the enabled classes are used): every character of a password the
/// configuration accepts belongs to an enabled class.
pub proof fn lemma_chars_from_enabled_classes(c: PasswordConfig, p: Seq<char>, i: int)
    requires
        acceptable_password(c, p),
        0 <= i < p.len(),
    ensures
        (c.use_lowercase && LOWERCASE@.contains(p[i])) || (c.use_uppercase && UPPERCASE@.contains(p[i]))
            || (c.use_digits && DIGITS@.contains(p[i])) || (c.use_symbols && SYMBOLS@.contains(p[i])),
{
    let lo = if c.use_lowercase { LOWERCASE@ } else { Seq::<char>::empty() };
    let up = if c.use_uppercase { UPPERCASE@ } else { Seq::<char>::empty() };
    let di = if c.use_digits { DIGITS@ } else { Seq::<char>::empty() };
    let sy = if c.use_symbols { SYMBOLS@ } else { Seq::<char>::empty() };
    let all = lo + up + di + sy;
    let x = p[i];
    assert(charset_spec(c).contains(x));
    if c.exclude_ambiguous {
        all.lemma_filter_contains_rev(unambiguous(), x);
    }
    assert(all.contains(x));
    let j = choose|j: int| 0 <= j < all.len() && all[j] == x;
    if j < lo.len() {
        assert(lo[j] == x);
    } else if j < lo.len() + up.len() {
        assert(up[j - lo.len()] == x);
    } else if j < lo.len() + up.len() + di.len() {
        assert(di[j - lo.len() - up.len()] == x);
    } else {
        assert(sy[j - lo.len() - up.len() - di.len()] == x);
    }
}

/// Generates a password with the default configuration (16 characters).
pub fn generate_default_password() -> (p: String)
    ensures
        acceptable_password(default_config(), p@),
{
    let config = PasswordConfig::default();
    match generate_password(&config) {
        Ok(p) => p,
        Err(_) => {
            assert(false);
            String::new()
        },
    }
}

} // verus!
