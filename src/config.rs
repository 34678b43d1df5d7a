//! Per-device button configuration and its compiled form.
use vstd::prelude::*;
use crate::program::StateToken;
use crate::report::BUTTON_COUNT;

verus! {

/// Macro specs of one button: for the normal layer (index 0) and the shift
/// layer (index 1), up to one spec string per absolute mode 0, 1, 2.
pub type ButtonConfig = [Vec<String>; 2];

/// Number of absolute modes.
pub const MODE_COUNT: usize = 3;

/// The macro specs of all fifteen logical buttons of one device, in the order
/// of the configuration list: scroll button, left and right action-lock,
/// forwards, back, thumb anticlockwise and clockwise, hat top, left, right and
/// bottom, button 1, precision aim, button 2, button 3.
pub struct ButtonConfigs {
    buttons: Vec<ButtonConfig>,
}

/// A copy of a list of strings.
fn copy_strings(v: &Vec<String>) -> (r: Vec<String>)
    ensures
        r@ == v@,
{
    let mut r: Vec<String> = Vec::new();
    let mut i: usize = 0;
    while i < v.len()
        invariant
            i <= v@.len(),
            r@ == v@.subrange(0, i as int),
        decreases v@.len() - i,
    {
        r.push(v[i].clone());
        i = i + 1;
        assert(r@ =~= v@.subrange(0, i as int));
    }
    assert(r@ =~= v@);
    r
}

/// A copy of one button's configuration.
pub fn copy_config(c: &ButtonConfig) -> (r: ButtonConfig)
    ensures
        r@[0]@ == c@[0]@,
        r@[1]@ == c@[1]@,
{
    [copy_strings(&c[0]), copy_strings(&c[1])]
}

impl ButtonConfigs {
    #[verifier::type_invariant]
    spec fn inv(&self) -> bool {
        self.buttons@.len() == BUTTON_COUNT
    }

    /// The spec strings of button `b` (configuration-list order) in layer `t`
    /// (0 normal, 1 shift), one per absolute mode.
    pub closed spec fn entries(&self, b: int, t: int) -> Seq<String> {
        self.buttons@[b]@[t]@
    }

    /// A configuration with no macro for any button in any context.
    pub fn empty() -> (r: ButtonConfigs)
        ensures
            forall|b: int, t: int|
                0 <= b < BUTTON_COUNT && 0 <= t < 2 ==> #[trigger] r.entries(b, t).len() == 0,
    {
        let mut buttons: Vec<ButtonConfig> = Vec::new();
        let mut i: usize = 0;
        while i < BUTTON_COUNT
            invariant
                i <= BUTTON_COUNT,
                buttons@.len() == i,
                forall|b: int, t: int|
                    0 <= b < i && 0 <= t < 2 ==> #[trigger] buttons@[b]@[t]@.len() == 0,
            decreases BUTTON_COUNT - i,
        {
            let c: ButtonConfig = [Vec::new(), Vec::new()];
            buttons.push(c);
            i = i + 1;
        }
        ButtonConfigs { buttons }
    }

    /// The configuration as a list of fifteen per-button entries, in
    /// configuration-list order.
    pub fn to_config(&self) -> (r: Vec<ButtonConfig>)
        ensures
            r@.len() == BUTTON_COUNT,
            forall|b: int, t: int|
                0 <= b < BUTTON_COUNT && 0 <= t < 2 ==> #[trigger] r@[b]@[t]@ == self.entries(b, t),
    {
        proof {
            use_type_invariant(self);
        }
        let mut r: Vec<ButtonConfig> = Vec::new();
        let mut i: usize = 0;
        while i < BUTTON_COUNT
            invariant
                i <= BUTTON_COUNT,
                self.buttons@.len() == BUTTON_COUNT,
                r@.len() == i,
                forall|b: int, t: int|
                    0 <= b < i && 0 <= t < 2 ==> #[trigger] r@[b]@[t]@ == self.entries(b, t),
            decreases BUTTON_COUNT - i,
        {
            let c = copy_config(&self.buttons[i]);
            r.push(c);
            proof {
                assert forall|t: int| 0 <= t < 2 implies #[trigger] r@[i as int]@[t]@ == self.entries(
                    i as int,
                    t,
                ) by {
                    if t == 0 {
                    } else {
                    }
                }
            }
            i = i + 1;
        }
        r
    }

    /// Builds a configuration from the first fifteen entries of a list in
    /// configuration-list order.
    pub fn from_config(data: &Vec<ButtonConfig>) -> (r: ButtonConfigs)
        requires
            data@.len() >= BUTTON_COUNT,
        ensures
            forall|b: int, t: int|
                0 <= b < BUTTON_COUNT && 0 <= t < 2 ==> #[trigger] r.entries(b, t) == data@[b]@[t]@,
    {
        let mut buttons: Vec<ButtonConfig> = Vec::new();
        let mut i: usize = 0;
        while i < BUTTON_COUNT
            invariant
                i <= BUTTON_COUNT,
                data@.len() >= BUTTON_COUNT,
                buttons@.len() == i,
                forall|b: int, t: int|
                    0 <= b < i && 0 <= t < 2 ==> #[trigger] buttons@[b]@[t]@ == data@[b]@[t]@,
            decreases BUTTON_COUNT - i,
        {
            let c = copy_config(&data[i]);
            buttons.push(c);
            proof {
                assert forall|t: int| 0 <= t < 2 implies #[trigger] buttons@[i as int]@[t]@
                    == data@[i as int]@[t]@ by {
                    if t == 0 {
                    } else {
                    }
                }
            }
            i = i + 1;
        }
        ButtonConfigs { buttons }
    }

    /// A reference to the configuration of button `b` (configuration-list order).
    pub fn button(&self, b: usize) -> (r: &ButtonConfig)
        requires
            b < BUTTON_COUNT,
        ensures
            r@[0]@ == self.entries(b as int, 0),
            r@[1]@ == self.entries(b as int, 1),
    {
        proof {
            use_type_invariant(self);
        }
        &self.buttons[b]
    }
}

impl Default for ButtonConfigs {
    fn default() -> (r: ButtonConfigs)
        ensures
            forall|b: int, t: int|
                0 <= b < BUTTON_COUNT && 0 <= t < 2 ==> #[trigger] r.entries(b, t).len() == 0,
    {
        ButtonConfigs::empty()
    }
}

/// What the compiled form of one button holds in layer `t`, mode `m`: the
/// compiler's program for the spec string when the configuration has one,
/// the empty program otherwise.
pub open spec fn compiled_slot<F: Fn(String) -> StateToken>(
    compile: F,
    specs: Seq<String>,
    m: int,
    p: StateToken,
) -> bool {
    if m < specs.len() {
        compile.ensures((specs[m],), p)
    } else {
        p.is_empty()
    }
}

/// Compiles one button's configuration into six programs, at index
/// `3 * t + m` for layer `t` and absolute mode `m`.
pub fn tokenize<F: Fn(String) -> StateToken>(config: &ButtonConfig, compile: &F) -> (r: Vec<StateToken>)
    requires
        forall|s: String| compile.requires((s,)),
    ensures
        r@.len() == 2 * MODE_COUNT,
        forall|t: int, m: int|
            0 <= t < 2 && 0 <= m < MODE_COUNT ==> compiled_slot(
                *compile,
                config@[t]@,
                m,
                #[trigger] r@[t * 3 + m],
            ),
{
    let mut r: Vec<StateToken> = Vec::new();
    let mut t: usize = 0;
    while t < 2
        invariant
            t <= 2,
            r@.len() == t * 3,
            forall|s: String| compile.requires((s,)),
            forall|u: int, m: int|
                0 <= u < t && 0 <= m < MODE_COUNT ==> compiled_slot(
                    *compile,
                    config@[u]@,
                    m,
                    #[trigger] r@[u * 3 + m],
                ),
        decreases 2 - t,
    {
        let specs: &Vec<String> = &config[t];
        let mut m: usize = 0;
        while m < MODE_COUNT
            invariant
                t < 2,
                m <= MODE_COUNT,
                r@.len() == t * 3 + m,
                specs@ == config@[t as int]@,
                forall|s: String| compile.requires((s,)),
                forall|u: int, n: int|
                    0 <= u < t && 0 <= n < MODE_COUNT ==> compiled_slot(
                        *compile,
                        config@[u]@,
                        n,
                        #[trigger] r@[u * 3 + n],
                    ),
                forall|n: int|
                    0 <= n < m ==> compiled_slot(
                        *compile,
                        config@[t as int]@,
                        n,
                        #[trigger] r@[t * 3 + n],
                    ),
            decreases MODE_COUNT - m,
        {
            let p = if m < specs.len() {
                compile(specs[m].clone())
            } else {
                StateToken::empty()
            };
            r.push(p);
            m = m + 1;
        }
        t = t + 1;
    }
    r
}

/// The compiled programs of all fifteen buttons of one device, in
/// configuration-list order.
pub struct ButtonConfigsToken {
    buttons: Vec<Vec<StateToken>>,
}

impl ButtonConfigsToken {
    #[verifier::type_invariant]
    spec fn inv(&self) -> bool {
        &&& self.buttons@.len() == BUTTON_COUNT
        &&& forall|b: int| 0 <= b < BUTTON_COUNT ==> (#[trigger] self.buttons@[b])@.len() == 2
            * MODE_COUNT
    }

    /// The program of button `b` (configuration-list order) in layer `t`, mode `m`.
    pub closed spec fn program(&self, b: int, t: int, m: int) -> StateToken {
        self.buttons@[b]@[t * 3 + m]
    }

    /// Compiles every spec string of a configuration; slots without one get
    /// the empty program.
    pub fn from_config<F: Fn(String) -> StateToken>(configs: &ButtonConfigs, compile: &F) -> (r:
        ButtonConfigsToken)
        requires
            forall|s: String| compile.requires((s,)),
        ensures
            forall|b: int, t: int, m: int|
                0 <= b < BUTTON_COUNT && 0 <= t < 2 && 0 <= m < MODE_COUNT ==> compiled_slot(
                    *compile,
                    configs.entries(b, t),
                    m,
                    #[trigger] r.program(b, t, m),
                ),
    {
        let mut buttons: Vec<Vec<StateToken>> = Vec::new();
        let mut b: usize = 0;
        while b < BUTTON_COUNT
            invariant
                b <= BUTTON_COUNT,
                buttons@.len() == b,
                forall|s: String| compile.requires((s,)),
                forall|c: int| 0 <= c < b ==> (#[trigger] buttons@[c])@.len() == 2 * MODE_COUNT,
                forall|c: int, t: int, m: int|
                    0 <= c < b && 0 <= t < 2 && 0 <= m < MODE_COUNT ==> compiled_slot(
                        *compile,
                        configs.entries(c, t),
                        m,
                        #[trigger] buttons@[c]@[t * 3 + m],
                    ),
            decreases BUTTON_COUNT - b,
        {
            let config = configs.button(b);
            let programs = tokenize(config, compile);
            buttons.push(programs);
            b = b + 1;
        }
        ButtonConfigsToken { buttons }
    }

    /// A reference to the program of button `b` (configuration-list order) in
    /// layer `t`, mode `m`.
    pub fn get(&self, b: usize, t: usize, m: usize) -> (r: &StateToken)
        requires
            b < BUTTON_COUNT,
            t < 2,
            m < MODE_COUNT,
        ensures
            *r == self.program(b as int, t as int, m as int),
    {
        proof {
            use_type_invariant(self);
            assert(self.buttons@[b as int]@.len() == 6);
        }
        &self.buttons[b][t * 3 + m]
    }
}

} // verus!
