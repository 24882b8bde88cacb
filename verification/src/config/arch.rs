//! The catalogue of target architectures: canonical names, aliases and the
//! name each goes by in the kernel tree.

use crate::err::{Error, ErrorView};
use crate::text::concat2;
use vstd::prelude::*;
use vstd::string::*;

verus! {

/// A target CPU architecture.
#[derive(Debug, Clone, Copy, PartialEq, Eq, Structural, Hash)]
pub enum Arch {
    X86,
    X86_64,
    Aarch64,
    Mips,
    Mips64,
    Sparc,
    Sparc64,
    PowerPC,
    PowerPC64,
}

/// Whether two characters are equal once ASCII letters are taken in one case.
pub open spec fn same_ignoring_case(a: char, b: char) -> bool {
    ||| a == b
    ||| ('A' <= a && a <= 'Z' && b as int == a as int + 32)
    ||| ('A' <= b && b <= 'Z' && a as int == b as int + 32)
}

/// Whether two texts are equal once ASCII letters are taken in one case.
pub open spec fn eq_ignoring_case(a: Seq<char>, b: Seq<char>) -> bool {
    &&& a.len() == b.len()
    &&& forall|i: int| 0 <= i < a.len() ==> same_ignoring_case(#[trigger] a[i], b[i])
}

/// Whether `value` is `name` or one of `aliases`, whatever the case of its ASCII letters.
pub open spec fn names_match(name: Seq<char>, aliases: Seq<Seq<char>>, value: Seq<char>) -> bool {
    ||| eq_ignoring_case(name, value)
    ||| exists|i: int| 0 <= i < aliases.len() && eq_ignoring_case(#[trigger] aliases[i], value)
}

/// Every architecture, in the order in which a name is looked up.
pub open spec fn all_archs() -> Seq<Arch> {
    seq![
        Arch::X86,
        Arch::X86_64,
        Arch::Aarch64,
        Arch::Mips,
        Arch::Mips64,
        Arch::Sparc,
        Arch::Sparc64,
        Arch::PowerPC,
        Arch::PowerPC64,
    ]
}

/// The first architecture from position `from` on that `value` names.
pub open spec fn first_named(value: Seq<char>, from: int) -> Option<Arch>
    decreases all_archs().len() - from,
{
    if from < 0 || from >= all_archs().len() {
        None
    } else if all_archs()[from].answers_to(value) {
        Some(all_archs()[from])
    } else {
        first_named(value, from + 1)
    }
}

/// The architecture that `value` names, by canonical name or alias, in any case.
pub open spec fn parsed_arch(value: Seq<char>) -> Option<Arch> {
    first_named(value, 0)
}

/// What naming an architecture by `value` yields: the architecture, or the
/// complaint that `value` names none.
pub open spec fn arch_from(value: Seq<char>) -> Result<Arch, ErrorView> {
    match parsed_arch(value) {
        Some(a) => Ok(a),
        None => Err(ErrorView::message("Invalid architecture: "@ + value)),
    }
}

/// The model of a result that holds an architecture.
pub open spec fn arch_result_view(r: Result<Arch, Error>) -> Result<Arch, ErrorView> {
    match r {
        Ok(a) => Ok(a),
        Err(e) => Err(e@),
    }
}

/// Whether `s` is the name of an architecture directory of the kernel tree.
pub open spec fn is_kernel_arch_name(s: Seq<char>) -> bool {
    ||| s == "x86"@
    ||| s == "arm64"@
    ||| s == "mips"@
    ||| s == "sparc"@
    ||| s == "powerpc"@
}

/// Reveals the characters of every name in the catalogue.
pub proof fn lemma_reveal_names()
    ensures
        "x86"@ == seq!['x', '8', '6'],
        "x86_64"@ == seq!['x', '8', '6', '_', '6', '4'],
        "aarch64"@ == seq!['a', 'a', 'r', 'c', 'h', '6', '4'],
        "mips"@ == seq!['m', 'i', 'p', 's'],
        "mips64"@ == seq!['m', 'i', 'p', 's', '6', '4'],
        "sparc"@ == seq!['s', 'p', 'a', 'r', 'c'],
        "sparc64"@ == seq!['s', 'p', 'a', 'r', 'c', '6', '4'],
        "powerpc"@ == seq!['p', 'o', 'w', 'e', 'r', 'p', 'c'],
        "powerpc64"@ == seq!['p', 'o', 'w', 'e', 'r', 'p', 'c', '6', '4'],
        "i386"@ == seq!['i', '3', '8', '6'],
        "amd64"@ == seq!['a', 'm', 'd', '6', '4'],
        "arm64"@ == seq!['a', 'r', 'm', '6', '4'],
        "ppc"@ == seq!['p', 'p', 'c'],
        "ppc64"@ == seq!['p', 'p', 'c', '6', '4'],
{
    reveal_strlit("x86");
    reveal_strlit("x86_64");
    reveal_strlit("aarch64");
    reveal_strlit("mips");
    reveal_strlit("mips64");
    reveal_strlit("sparc");
    reveal_strlit("sparc64");
    reveal_strlit("powerpc");
    reveal_strlit("powerpc64");
    reveal_strlit("i386");
    reveal_strlit("amd64");
    reveal_strlit("arm64");
    reveal_strlit("ppc");
    reveal_strlit("ppc64");
    assert("x86"@ =~= seq!['x', '8', '6']);
    assert("x86_64"@ =~= seq!['x', '8', '6', '_', '6', '4']);
    assert("aarch64"@ =~= seq!['a', 'a', 'r', 'c', 'h', '6', '4']);
    assert("mips"@ =~= seq!['m', 'i', 'p', 's']);
    assert("mips64"@ =~= seq!['m', 'i', 'p', 's', '6', '4']);
    assert("sparc"@ =~= seq!['s', 'p', 'a', 'r', 'c']);
    assert("sparc64"@ =~= seq!['s', 'p', 'a', 'r', 'c', '6', '4']);
    assert("powerpc"@ =~= seq!['p', 'o', 'w', 'e', 'r', 'p', 'c']);
    assert("powerpc64"@ =~= seq!['p', 'o', 'w', 'e', 'r', 'p', 'c', '6', '4']);
    assert("i386"@ =~= seq!['i', '3', '8', '6']);
    assert("amd64"@ =~= seq!['a', 'm', 'd', '6', '4']);
    assert("arm64"@ =~= seq!['a', 'r', 'm', '6', '4']);
    assert("ppc"@ =~= seq!['p', 'p', 'c']);
    assert("ppc64"@ =~= seq!['p', 'p', 'c', '6', '4']);
}

/// No two names of the catalogue are equal once case is ignored, unless they
/// belong to the same architecture.
pub proof fn lemma_names_are_distinct(a: Arch, b: Arch)
    requires
        a != b,
    ensures
        !b.answers_to(a.spec_name()),
        forall|i: int| 0 <= i < a.spec_aliases().len() ==> !b.answers_to(#[trigger] a.spec_aliases()[i]),
{
    lemma_reveal_names();
    let n = a.spec_name();
    let m = b.spec_name();
    if n.len() == m.len() {
        assert(!same_ignoring_case(m[0], n[0]) || !same_ignoring_case(m[1], n[1])
            || !same_ignoring_case(m[m.len() - 1], n[n.len() - 1]));
    }
    assert(!eq_ignoring_case(m, n));
    if b.spec_aliases().len() > 0 {
        let y = b.spec_aliases()[0];
        if y.len() == n.len() {
            assert(!same_ignoring_case(y[0], n[0]) || !same_ignoring_case(y[1], n[1]));
        }
        assert(!eq_ignoring_case(y, n));
    }
    if a.spec_aliases().len() > 0 {
        let x = a.spec_aliases()[0];
        if x.len() == m.len() {
            assert(!same_ignoring_case(m[0], x[0]) || !same_ignoring_case(m[1], x[1]));
        }
        assert(!eq_ignoring_case(m, x));
        if b.spec_aliases().len() > 0 {
            let y = b.spec_aliases()[0];
            if y.len() == x.len() {
                assert(!same_ignoring_case(y[0], x[0]) || !same_ignoring_case(y[1], x[1]));
            }
            assert(!eq_ignoring_case(y, x));
        }
    }
}

/// A text is equal to itself once case is ignored.
pub proof fn lemma_eq_ignoring_case_reflexive(s: Seq<char>)
    ensures
        eq_ignoring_case(s, s),
{
}

/// Every architecture is found again under its canonical name and under each
/// of its aliases.
pub proof fn lemma_parse_finds_names(a: Arch)
    ensures
        parsed_arch(a.spec_name()) == Some(a),
        forall|i: int| 0 <= i < a.spec_aliases().len() ==> parsed_arch(#[trigger] a.spec_aliases()[i]) == Some(a),
{
    lemma_eq_ignoring_case_reflexive(a.spec_name());
    assert(a.answers_to(a.spec_name()));
    assert forall|b: Arch| b != a implies !b.answers_to(a.spec_name()) by {
        lemma_names_are_distinct(a, b);
    }
    lemma_first_named_is(a.spec_name(), a, 0);
    assert forall|i: int| 0 <= i < a.spec_aliases().len() implies parsed_arch(
        #[trigger] a.spec_aliases()[i],
    ) == Some(a) by {
        let x = a.spec_aliases()[i];
        lemma_eq_ignoring_case_reflexive(x);
        assert(a.answers_to(x));
        assert forall|b: Arch| b != a implies !b.answers_to(x) by {
            lemma_names_are_distinct(a, b);
        }
        lemma_first_named_is(x, a, 0);
    }
}

/// The position of an architecture in the lookup order.
pub open spec fn position(a: Arch) -> int {
    match a {
        Arch::X86 => 0,
        Arch::X86_64 => 1,
        Arch::Aarch64 => 2,
        Arch::Mips => 3,
        Arch::Mips64 => 4,
        Arch::Sparc => 5,
        Arch::Sparc64 => 6,
        Arch::PowerPC => 7,
        Arch::PowerPC64 => 8,
    }
}

/// A lookup that starts at or before the one architecture a value names finds it.
proof fn lemma_first_named_is(value: Seq<char>, a: Arch, from: int)
    requires
        0 <= from <= position(a),
        a.answers_to(value),
        forall|b: Arch| b != a ==> !b.answers_to(value),
    ensures
        first_named(value, from) == Some(a),
    decreases position(a) - from,
{
    assert(all_archs()[position(a)] == a);
    if from < position(a) {
        assert(all_archs()[from] != a);
        lemma_first_named_is(value, a, from + 1);
    }
}

/// Whether `value` is `name` or one of `aliases`, letter for letter.
pub open spec fn names_equal(name: Seq<char>, aliases: Seq<Seq<char>>, value: Seq<char>) -> bool {
    ||| name == value
    ||| exists|i: int| 0 <= i < aliases.len() && #[trigger] aliases[i] == value
}

/// Whether clap's possible value of `name` and `aliases` accepts `value`.
///
/// Calls `clap::builder::PossibleValue::matches` on the possible value built
/// from `name` and `aliases`. clap accepts a value that is the name or one
/// of the aliases: it compares each of them to the value with `==`, or, with
/// case ignored, by `str::eq_ignore_ascii_case`. The contract states that.
#[verifier::external_body]
fn possible_value_matches(
    name: &'static str,
    aliases: Vec<&'static str>,
    value: &str,
    ignore_case: bool,
) -> (r: bool)
    ensures
        ignore_case ==> r == names_match(
            name@,
            Seq::new(aliases@.len(), |i: int| aliases@[i]@),
            value@,
        ),
        !ignore_case ==> r == names_equal(
            name@,
            Seq::new(aliases@.len(), |i: int| aliases@[i]@),
            value@,
        ),
{
    clap::builder::PossibleValue::new(name).aliases(aliases).matches(value, ignore_case)
}

impl Arch {
    /// The canonical name.
    pub open spec fn spec_name(self) -> Seq<char> {
        match self {
            Arch::X86 => "x86"@,
            Arch::X86_64 => "x86_64"@,
            Arch::Aarch64 => "aarch64"@,
            Arch::Mips => "mips"@,
            Arch::Mips64 => "mips64"@,
            Arch::Sparc => "sparc"@,
            Arch::Sparc64 => "sparc64"@,
            Arch::PowerPC => "powerpc"@,
            Arch::PowerPC64 => "powerpc64"@,
        }
    }

    /// The other names the architecture answers to.
    pub open spec fn spec_aliases(self) -> Seq<Seq<char>> {
        match self {
            Arch::X86 => seq!["i386"@],
            Arch::X86_64 => seq!["amd64"@],
            Arch::Aarch64 => seq!["arm64"@],
            Arch::Mips => seq![],
            Arch::Mips64 => seq![],
            Arch::Sparc => seq![],
            Arch::Sparc64 => seq![],
            Arch::PowerPC => seq!["ppc"@],
            Arch::PowerPC64 => seq!["ppc64"@],
        }
    }

    /// The name of the architecture's directory in the kernel tree.
    pub open spec fn spec_kernel_arch(self) -> Seq<char> {
        match self {
            Arch::X86 => "x86"@,
            Arch::X86_64 => "x86"@,
            Arch::Aarch64 => "arm64"@,
            Arch::Mips => "mips"@,
            Arch::Mips64 => "mips"@,
            Arch::Sparc => "sparc"@,
            Arch::Sparc64 => "sparc"@,
            Arch::PowerPC => "powerpc"@,
            Arch::PowerPC64 => "powerpc"@,
        }
    }

    /// Whether `value` names this architecture.
    pub open spec fn answers_to(self, value: Seq<char>) -> bool {
        names_match(self.spec_name(), self.spec_aliases(), value)
    }

    /// The name of the architecture's directory in the kernel tree.
    pub fn kernel_arch(&self) -> (r: &'static str)
        ensures
            r@ == self.spec_kernel_arch(),
            is_kernel_arch_name(r@),
    {
        match self {
            Arch::X86 => "x86",
            Arch::X86_64 => "x86",
            Arch::Aarch64 => "arm64",
            Arch::Mips => "mips",
            Arch::Mips64 => "mips",
            Arch::Sparc => "sparc",
            Arch::Sparc64 => "sparc",
            Arch::PowerPC => "powerpc",
            Arch::PowerPC64 => "powerpc",
        }
    }

    /// The canonical name.
    pub fn name(&self) -> (r: &'static str)
        ensures
            r@ == self.spec_name(),
    {
        match self {
            Arch::X86 => "x86",
            Arch::X86_64 => "x86_64",
            Arch::Aarch64 => "aarch64",
            Arch::Mips => "mips",
            Arch::Mips64 => "mips64",
            Arch::Sparc => "sparc",
            Arch::Sparc64 => "sparc64",
            Arch::PowerPC => "powerpc",
            Arch::PowerPC64 => "powerpc64",
        }
    }

    /// The other names the architecture answers to.
    pub fn aliases(&self) -> (r: Vec<&'static str>)
        ensures
            Seq::new(r@.len(), |i: int| r@[i]@) == self.spec_aliases(),
    {
        let r: Vec<&'static str> = match self {
            Arch::X86 => vec!["i386"],
            Arch::X86_64 => vec!["amd64"],
            Arch::Aarch64 => vec!["arm64"],
            Arch::Mips => vec![],
            Arch::Mips64 => vec![],
            Arch::Sparc => vec![],
            Arch::Sparc64 => vec![],
            Arch::PowerPC => vec!["ppc"],
            Arch::PowerPC64 => vec!["ppc64"],
        };
        assert(Seq::new(r@.len(), |i: int| r@[i]@) =~= self.spec_aliases());
        r
    }

    /// Every architecture, in the order in which a name is looked up.
    pub fn value_variants() -> (r: Vec<Arch>)
        ensures
            r@ == all_archs(),
    {
        let r = vec![
            Arch::X86,
            Arch::X86_64,
            Arch::Aarch64,
            Arch::Mips,
            Arch::Mips64,
            Arch::Sparc,
            Arch::Sparc64,
            Arch::PowerPC,
            Arch::PowerPC64,
        ];
        assert(r@ =~= all_archs());
        r
    }

    /// The canonical name, owned.
    pub fn to_string(&self) -> (r: String)
        ensures
            r@ == self.spec_name(),
    {
        self.name().to_owned()
    }

    /// The architecture that `s` names by canonical name or alias, whatever
    /// the case of its letters; an error that quotes `s` when it names none.
    pub fn from_str(s: &str) -> (r: Result<Arch, Error>)
        ensures
            arch_result_view(r) == arch_from(s@),
    {
        let variants = Arch::value_variants();
        let mut i: usize = 0;
        while i < variants.len()
            invariant
                i <= variants.len(),
                variants@ == all_archs(),
                parsed_arch(s@) == first_named(s@, i as int),
            decreases variants.len() - i,
        {
            let v = variants[i];
            if possible_value_matches(v.name(), v.aliases(), s, true) {
                return Ok(v);
            }
            i = i + 1;
        }
        Err(Error::new(concat2("Invalid architecture: ", s).as_str()))
    }
}

impl std::str::FromStr for Arch {
    type Err = Error;

    /// The architecture that `s` names by canonical name or alias, whatever
    /// the case of its letters; an error that quotes `s` when it names none.
    fn from_str(s: &str) -> (r: Result<Arch, Error>)
        ensures
            arch_result_view(r) == arch_from(s@),
    {
        Arch::from_str(s)
    }
}

} // verus!
