//! Requirements that are printed for a shell read back as they were.

use crate::config::arch::{arch_from, lemma_parse_finds_names, lemma_reveal_names, Arch};
use crate::config::kconfig::{is_option_key, kconfig_from, KConfigView};
use crate::config::make::lemma_derived_dirs_end_in_kernel_arch;
use crate::config::ConfigView;
use crate::decimal::{decimal, is_digit, lemma_decimal_reads_back, parsed_usize};
use crate::deps::{
    kconfig_texts, kconfigs_from, line_key, line_value, list_items, list_line, list_value,
    parsed_deps, value_line, well_formed, DepsView,
};
use crate::err::ErrorView;
use crate::path::ends_with;
use crate::text::{
    has_char, join, lemma_find_is, lemma_has_char_concat, lemma_join_ends, lemma_join_lacks,
    lemma_leading_is, lemma_lines_cons, lemma_non_empty_keeps_all, lemma_split_cons,
    lemma_split_join, lemma_split_none, lemma_trailing_is, lines, split, strip_cr, trim_end_of,
    trim_start_of,
};
use vstd::prelude::*;

verus! {

/// Whether a value survives on a line of its own: it holds no line feed and
/// does not end in a carriage return.
pub open spec fn plain_value(v: Seq<char>) -> bool {
    !has_char(v, '\n') && !(v.len() > 0 && v.last() == '\r')
}

/// Whether an item survives in a list: it is not empty and holds neither a
/// space nor a line feed.
pub open spec fn plain_item(t: Seq<char>) -> bool {
    t.len() > 0 && !has_char(t, ' ') && !has_char(t, '\n')
}

/// Whether a list survives between parentheses: each item survives, the
/// first does not begin with `(` and the last does not end with `)`.
pub open spec fn plain_list(items: Seq<Seq<char>>) -> bool {
    &&& forall|i: int| 0 <= i < items.len() ==> plain_item(#[trigger] items[i])
    &&& items.len() > 0 ==> items[0][0] != '(' && items.last().last() != ')'
}

/// Whether an option survives as `KEY[=VALUE]`: its key begins with
/// `CONFIG_`, and neither its key nor its value holds a `=`.
pub open spec fn plain_kconfig(c: KConfigView) -> bool {
    is_option_key(c.key) && !has_char(c.key, '=') && (c.value is Some ==> !has_char(
        c.value->0,
        '=',
    ))
}

/// Whether requirements survive being printed for a shell: every value and
/// every list does, and so does every required option.
///
/// Anything else is lost on the way. No processors at all and an option
/// whose key does not begin with `CONFIG_` are refused when they are read
/// back. A line feed in a value ends its line
/// early, and a carriage return before the line ending is taken for part of
/// the ending. A list is cut at every space and loses its empty items; all
/// the parentheses around it go, also those that belong to its first or to
/// its last item. An option is cut at its first `=`, and a second one makes
/// it unreadable.
pub open spec fn renders_faithfully(d: DepsView) -> bool {
    &&& d.cpus is Some ==> d.cpus->0 > 0
    &&& d.mem is Some ==> plain_value(d.mem->0)
    &&& d.storage_bus is Some ==> plain_value(d.storage_bus->0)
    &&& plain_list(d.kernel_append)
    &&& plain_list(d.make_append)
    &&& plain_list(d.qemu_append)
    &&& plain_list(kconfig_texts(d.config))
    &&& forall|i: int| 0 <= i < d.config.len() ==> plain_kconfig(#[trigger] d.config[i])
}

/// The keys that a test may print, in the order in which they are printed back.
pub open spec fn keys() -> Seq<Seq<char>> {
    seq![
        "ktest_arch"@,
        "ktest_cpus"@,
        "ktest_mem"@,
        "ktest_kernel_append"@,
        "ktest_kernel_make_append"@,
        "ktest_storage_bus"@,
        "ktest_kernel_config_require"@,
        "ktest_qemu_append"@,
    ]
}

/// The line of a value that may be unset, as a list of lines.
pub open spec fn value_lines(key: Seq<char>, value: Option<Seq<char>>) -> Seq<Seq<char>> {
    match value {
        Some(v) => seq![key + seq!['='] + v],
        None => seq![],
    }
}

/// The line of a list, as a list of lines.
pub open spec fn list_lines(key: Seq<char>, items: Seq<Seq<char>>) -> Seq<Seq<char>> {
    if items.len() == 0 {
        seq![]
    } else {
        seq![key + seq!['='] + list_value(items)]
    }
}

/// The name of an architecture that may be unset.
pub open spec fn arch_text(arch: Option<Arch>) -> Option<Seq<char>> {
    match arch {
        Some(a) => Some(a.spec_name()),
        None => None,
    }
}

/// The digits of a number that may be unset.
pub open spec fn cpus_text(cpus: Option<usize>) -> Option<Seq<char>> {
    match cpus {
        Some(n) => Some(decimal(n as nat)),
        None => None,
    }
}

/// The key at each place of the order.
pub proof fn lemma_keys_in_order()
    ensures
        keys().len() == 8,
        keys()[0] == "ktest_arch"@,
        keys()[1] == "ktest_cpus"@,
        keys()[2] == "ktest_mem"@,
        keys()[3] == "ktest_kernel_append"@,
        keys()[4] == "ktest_kernel_make_append"@,
        keys()[5] == "ktest_storage_bus"@,
        keys()[6] == "ktest_kernel_config_require"@,
        keys()[7] == "ktest_qemu_append"@,
{
}

/// No key holds `=` or a line feed.
pub proof fn lemma_key_is_plain(i: int)
    requires
        0 <= i < 8,
    ensures
        !has_char(keys()[i], '='),
        !has_char(keys()[i], '\n'),
{
    reveal_strlit("ktest_arch");
    reveal_strlit("ktest_cpus");
    reveal_strlit("ktest_mem");
    reveal_strlit("ktest_kernel_append");
    reveal_strlit("ktest_kernel_make_append");
    reveal_strlit("ktest_storage_bus");
    reveal_strlit("ktest_kernel_config_require");
    reveal_strlit("ktest_qemu_append");
    let s = keys()[i];
    assert forall|p: int| 0 <= p < s.len() implies s[p] != '=' && s[p] != '\n' by {}
}

/// No two keys are the same.
pub proof fn lemma_keys_differ(i: int, j: int)
    requires
        0 <= i < 8,
        0 <= j < 8,
        i != j,
    ensures
        keys()[i] != keys()[j],
{
    reveal_strlit("ktest_arch");
    reveal_strlit("ktest_cpus");
    reveal_strlit("ktest_mem");
    reveal_strlit("ktest_kernel_append");
    reveal_strlit("ktest_kernel_make_append");
    reveal_strlit("ktest_storage_bus");
    reveal_strlit("ktest_kernel_config_require");
    reveal_strlit("ktest_qemu_append");
    let k = keys();
    assert(k[0].len() == 10 && k[1].len() == 10 && k[2].len() == 9 && k[3].len() == 19);
    assert(k[4].len() == 24 && k[5].len() == 17 && k[6].len() == 27 && k[7].len() == 17);
    assert(k[0][6] != k[1][6]);
    assert(k[5][6] != k[7][6]);
}

/// A line `KEY=VALUE` whose key holds no `=` splits into that key and that value.
pub proof fn lemma_line_parts(key: Seq<char>, value: Seq<char>)
    requires
        !has_char(key, '='),
    ensures
        line_key(key + seq!['='] + value) == key,
        line_value(key + seq!['='] + value) == value,
        has_char(key + seq!['='] + value, '='),
{
    let line = key + seq!['='] + value;
    assert forall|k: int| 0 <= k < key.len() implies line[k] != '=' by {
        assert(line[k] == key[k]);
    }
    assert(line[key.len() as int] == '=');
    lemma_find_is(line, '=', key.len() as int);
    assert(line.subrange(0, key.len() as int) =~= key);
    assert(line.subrange(key.len() as int + 1, line.len() as int) =~= value);
}

/// A list that survives between parentheses reads back item by item, and
/// its value survives on a line.
pub proof fn lemma_list_value_reads_back(items: Seq<Seq<char>>)
    requires
        plain_list(items),
        items.len() > 0,
    ensures
        list_items(list_value(items)) == items,
        plain_value(list_value(items)),
{
    let sep = seq![' '];
    let j = join(items, sep);
    assert forall|i: int| 0 <= i < items.len() implies (#[trigger] items[i]).len() > 0 by {
        assert(plain_item(items[i]));
    }
    assert forall|i: int| 0 <= i < items.len() implies !has_char(#[trigger] items[i], ' ') by {
        assert(plain_item(items[i]));
    }
    assert forall|i: int| 0 <= i < items.len() implies !has_char(#[trigger] items[i], '\n') by {
        assert(plain_item(items[i]));
    }
    lemma_join_ends(items, sep);
    let v = list_value(items);
    assert(v[0] == '(');
    assert(v[1] == j[0]);
    assert forall|k: int| 0 <= k < 1 implies v[k] == '(' by {}
    lemma_leading_is(v, '(', 1);
    let w = trim_start_of(v, '(');
    assert(w =~= j + seq![')']);
    assert(w.last() == ')');
    assert(w[w.len() - 2] == j.last());
    assert forall|k: int| w.len() - 1 <= k < w.len() implies w[k] == ')' by {}
    lemma_trailing_is(w, ')', 1);
    assert(trim_end_of(w, ')') =~= j);
    lemma_split_join(items, ' ');
    lemma_non_empty_keeps_all(items);
    assert(!has_char(sep, '\n')) by {
        if has_char(sep, '\n') {
            let p = choose|p: int| 0 <= p < sep.len() && sep[p] == '\n';
            assert(sep[p] == ' ');
        }
    }
    lemma_join_lacks(items, sep, '\n');
    assert(!has_char(seq!['('], '\n')) by {
        if has_char(seq!['('], '\n') {
            let p = choose|p: int| 0 <= p < seq!['('].len() && seq!['('][p] == '\n';
            assert(seq!['('][p] == '(');
        }
    }
    assert(!has_char(seq![')'], '\n')) by {
        if has_char(seq![')'], '\n') {
            let p = choose|p: int| 0 <= p < seq![')'].len() && seq![')'][p] == '\n';
            assert(seq![')'][p] == ')');
        }
    }
    lemma_has_char_concat(seq!['('], j, '\n');
    lemma_has_char_concat(seq!['('] + j, seq![')'], '\n');
    assert(v.last() == ')');
}

/// An option that survives as `KEY[=VALUE]` reads back from its text.
pub proof fn lemma_kconfig_reads_back(c: KConfigView)
    requires
        plain_kconfig(c),
    ensures
        kconfig_from(c.text()) == Ok::<KConfigView, ErrorView>(c),
{
    reveal_strlit("=");
    assert("="@ =~= seq!['=']);
    match c.value {
        None => {
            lemma_split_none(c.key, '=');
        },
        Some(v) => {
            lemma_split_cons(c.key, '=', v);
            lemma_split_none(v, '=');
            assert(split(c.text(), '=') =~= seq![c.key, v]);
        },
    }
}

/// Options that survive as `KEY[=VALUE]` read back from their texts, in order.
pub proof fn lemma_kconfigs_read_back(cs: Seq<KConfigView>)
    requires
        forall|i: int| 0 <= i < cs.len() ==> plain_kconfig(#[trigger] cs[i]),
    ensures
        kconfigs_from(kconfig_texts(cs)) == Ok::<Seq<KConfigView>, ErrorView>(cs),
    decreases cs.len(),
{
    let texts = kconfig_texts(cs);
    if cs.len() == 0 {
        assert(cs =~= Seq::<KConfigView>::empty());
    } else {
        let init = cs.drop_last();
        assert forall|i: int| 0 <= i < init.len() implies plain_kconfig(#[trigger] init[i]) by {
            assert(init[i] == cs[i]);
        }
        lemma_kconfigs_read_back(init);
        assert(texts.drop_last() =~= kconfig_texts(init));
        assert(texts.last() == cs.last().text());
        assert(plain_kconfig(cs[cs.len() - 1]));
        lemma_kconfig_reads_back(cs.last());
        assert(init.push(cs.last()) =~= cs);
    }
}

/// Reading lines one after another is reading the first ones, then the others.
pub proof fn lemma_with_lines_concat(d: DepsView, a: Seq<Seq<char>>, b: Seq<Seq<char>>)
    ensures
        d.with_lines(a + b) == match d.with_lines(a) {
            Ok(d1) => d1.with_lines(b),
            Err(e) => Err(e),
        },
    decreases b.len(),
{
    if b.len() == 0 {
        assert(a + b =~= a);
    } else {
        lemma_with_lines_concat(d, a, b.drop_last());
        assert((a + b).drop_last() =~= a + b.drop_last());
        assert((a + b).last() == b.last());
    }
}

/// Reading one line is reading that line.
pub proof fn lemma_with_lines_one(d: DepsView, line: Seq<char>)
    ensures
        d.with_lines(seq![line]) == d.with_line(line),
{
    let one = seq![line];
    assert(one.drop_last() =~= Seq::<Seq<char>>::empty());
    assert(d.with_lines(one.drop_last()) == Ok::<DepsView, ErrorView>(d));
    assert(one.last() == line);
}

/// The printed line of a value that survives is the first line of what is
/// printed, whatever follows.
pub proof fn lemma_lines_after_value(key: Seq<char>, value: Option<Seq<char>>, rest: Seq<char>)
    requires
        !has_char(key, '\n'),
        value is Some ==> plain_value(value->0),
    ensures
        lines(value_line(key, value) + rest) == value_lines(key, value) + lines(rest),
{
    match value {
        None => {
            assert(value_line(key, value) + rest =~= rest);
            assert(value_lines(key, value) + lines(rest) =~= lines(rest));
        },
        Some(v) => {
            let a = key + seq!['='] + v;
            assert(!has_char(seq!['='], '\n')) by {
                if has_char(seq!['='], '\n') {
                    let p = choose|p: int| 0 <= p < seq!['='].len() && seq!['='][p] == '\n';
                    assert(seq!['='][p] == '=');
                }
            }
            lemma_has_char_concat(key, seq!['='], '\n');
            lemma_has_char_concat(key + seq!['='], v, '\n');
            if v.len() == 0 {
                assert(a.last() == '=');
            } else {
                assert(a.last() == v.last());
            }
            assert(strip_cr(a) == a);
            lemma_lines_cons(a, rest);
            assert(value_line(key, value) + rest =~= a + seq!['\n'] + rest);
        },
    }
}

/// The printed line of a list that survives is the first line of what is
/// printed, whatever follows.
pub proof fn lemma_lines_after_list(key: Seq<char>, items: Seq<Seq<char>>, rest: Seq<char>)
    requires
        !has_char(key, '\n'),
        plain_list(items),
    ensures
        lines(list_line(key, items) + rest) == list_lines(key, items) + lines(rest),
{
    if items.len() == 0 {
        assert(list_line(key, items) + rest =~= rest);
        assert(list_lines(key, items) + lines(rest) =~= lines(rest));
    } else {
        lemma_list_value_reads_back(items);
        lemma_lines_after_value(key, Some(list_value(items)), rest);
    }
}

/// What a line of a key does to the requirements read so far: the key at
/// place `i` sets or extends what belongs to it.
pub open spec fn effect(d: DepsView, i: int, value: Seq<char>) -> Result<DepsView, ErrorView> {
    if i == 0 {
        match arch_from(value) {
            Ok(a) => Ok(DepsView { arch: Some(a), ..d }),
            Err(e) => Err(e),
        }
    } else if i == 1 {
        match parsed_usize(value) {
            Some(n) => if n > 0 {
                Ok(DepsView { cpus: Some(n), ..d })
            } else {
                Err(ErrorView::message("Invalid number: "@ + value))
            },
            None => Err(ErrorView::message("Invalid number: "@ + value)),
        }
    } else if i == 2 {
        Ok(DepsView { mem: Some(value), ..d })
    } else if i == 3 {
        Ok(DepsView { kernel_append: d.kernel_append + list_items(value), ..d })
    } else if i == 4 {
        Ok(DepsView { make_append: d.make_append + list_items(value), ..d })
    } else if i == 5 {
        Ok(DepsView { storage_bus: Some(value), ..d })
    } else if i == 6 {
        match kconfigs_from(list_items(value)) {
            Ok(cs) => Ok(DepsView { config: d.config + cs, ..d }),
            Err(e) => Err(e),
        }
    } else {
        Ok(DepsView { qemu_append: d.qemu_append + list_items(value), ..d })
    }
}

/// A line of the key at place `i` has the effect of that key.
pub proof fn lemma_with_line_effect(d: DepsView, i: int, value: Seq<char>)
    requires
        0 <= i < 8,
    ensures
        d.with_line(keys()[i] + seq!['='] + value) == effect(d, i, value),
        d.with_lines(seq![keys()[i] + seq!['='] + value]) == effect(d, i, value),
{
    lemma_keys_in_order();
    lemma_key_is_plain(i);
    lemma_line_parts(keys()[i], value);
    lemma_with_lines_one(d, keys()[i] + seq!['='] + value);
    if i > 0 {
        lemma_keys_differ(i, 0);
    }
    if i > 1 {
        lemma_keys_differ(i, 1);
    }
    if i > 2 {
        lemma_keys_differ(i, 2);
    }
    if i > 3 {
        lemma_keys_differ(i, 3);
    }
    if i > 4 {
        lemma_keys_differ(i, 4);
    }
    if i > 5 {
        lemma_keys_differ(i, 5);
    }
    if i > 6 {
        lemma_keys_differ(i, 6);
    }
}

/// The printed text of the requirement at place `i`.
pub open spec fn group_text(d: DepsView, i: int) -> Seq<char> {
    if i == 0 {
        value_line(keys()[0], arch_text(d.arch))
    } else if i == 1 {
        value_line(keys()[1], cpus_text(d.cpus))
    } else if i == 2 {
        value_line(keys()[2], d.mem)
    } else if i == 3 {
        list_line(keys()[3], d.kernel_append)
    } else if i == 4 {
        list_line(keys()[4], d.make_append)
    } else if i == 5 {
        value_line(keys()[5], d.storage_bus)
    } else if i == 6 {
        list_line(keys()[6], kconfig_texts(d.config))
    } else {
        list_line(keys()[7], d.qemu_append)
    }
}

/// The printed lines of the requirement at place `i`: one, or none.
pub open spec fn group_lines(d: DepsView, i: int) -> Seq<Seq<char>> {
    if i == 0 {
        value_lines(keys()[0], arch_text(d.arch))
    } else if i == 1 {
        value_lines(keys()[1], cpus_text(d.cpus))
    } else if i == 2 {
        value_lines(keys()[2], d.mem)
    } else if i == 3 {
        list_lines(keys()[3], d.kernel_append)
    } else if i == 4 {
        list_lines(keys()[4], d.make_append)
    } else if i == 5 {
        value_lines(keys()[5], d.storage_bus)
    } else if i == 6 {
        list_lines(keys()[6], kconfig_texts(d.config))
    } else {
        list_lines(keys()[7], d.qemu_append)
    }
}

/// The printed text of the requirements from place `i` on.
pub open spec fn text_from(d: DepsView, i: int) -> Seq<char>
    decreases 8 - i,
{
    if i >= 8 {
        seq![]
    } else {
        group_text(d, i) + text_from(d, i + 1)
    }
}

/// The printed lines of the requirements from place `i` on.
pub open spec fn lines_from(d: DepsView, i: int) -> Seq<Seq<char>>
    decreases 8 - i,
{
    if i >= 8 {
        seq![]
    } else {
        group_lines(d, i) + lines_from(d, i + 1)
    }
}

/// The requirements of `d` up to place `i`, and none from there on.
pub open spec fn upto(d: DepsView, i: int) -> DepsView {
    DepsView {
        arch: if i > 0 {
            d.arch
        } else {
            None
        },
        cpus: if i > 1 {
            d.cpus
        } else {
            None
        },
        mem: if i > 2 {
            d.mem
        } else {
            None
        },
        kernel_append: if i > 3 {
            d.kernel_append
        } else {
            seq![]
        },
        make_append: if i > 4 {
            d.make_append
        } else {
            seq![]
        },
        storage_bus: if i > 5 {
            d.storage_bus
        } else {
            None
        },
        config: if i > 6 {
            d.config
        } else {
            seq![]
        },
        qemu_append: if i > 7 {
            d.qemu_append
        } else {
            seq![]
        },
    }
}

/// Concatenation of texts does not depend on how it is grouped.
proof fn lemma_concat_assoc(a: Seq<char>, b: Seq<char>, c: Seq<char>)
    ensures
        (a + b) + c == a + (b + c),
{
    assert((a + b) + c =~= a + (b + c));
}

/// What is printed is the printed text of each place, in order.
pub proof fn lemma_rendered_is_text(d: DepsView)
    ensures
        d.rendered() == text_from(d, 0),
{
    lemma_keys_in_order();
    let t0 = group_text(d, 0);
    let t1 = group_text(d, 1);
    let t2 = group_text(d, 2);
    let t3 = group_text(d, 3);
    let t4 = group_text(d, 4);
    let t5 = group_text(d, 5);
    let t6 = group_text(d, 6);
    let t7 = group_text(d, 7);
    assert(d.rendered() == t0 + t1 + t2 + t3 + t4 + t5 + t6 + t7);
    let r8 = text_from(d, 8);
    let r7 = text_from(d, 7);
    let r6 = text_from(d, 6);
    let r5 = text_from(d, 5);
    let r4 = text_from(d, 4);
    let r3 = text_from(d, 3);
    let r2 = text_from(d, 2);
    let r1 = text_from(d, 1);
    let r0 = text_from(d, 0);
    assert(r8 == Seq::<char>::empty());
    assert(r7 == t7 + r8);
    assert(r7 == t7) by {
        assert(t7 + r8 =~= t7);
    }
    assert(r6 == t6 + r7);
    assert(r5 == t5 + r6);
    assert(r4 == t4 + r5);
    assert(r3 == t3 + r4);
    assert(r2 == t2 + r3);
    assert(r1 == t1 + r2);
    assert(r0 == t0 + r1);
    lemma_concat_assoc(t0 + t1 + t2 + t3 + t4 + t5, t6, t7);
    lemma_concat_assoc(t0 + t1 + t2 + t3 + t4, t5, r6);
    lemma_concat_assoc(t0 + t1 + t2 + t3, t4, r5);
    lemma_concat_assoc(t0 + t1 + t2, t3, r4);
    lemma_concat_assoc(t0 + t1, t2, r3);
    lemma_concat_assoc(t0, t1, r2);
}

/// The printed text of a place that survives gives the printed lines of
/// that place, whatever follows.
pub proof fn lemma_group_lines(d: DepsView, i: int, rest: Seq<char>)
    requires
        renders_faithfully(d),
        0 <= i < 8,
    ensures
        lines(group_text(d, i) + rest) == group_lines(d, i) + lines(rest),
{
    lemma_key_is_plain(i);
    if i == 0 {
        if d.arch is Some {
            lemma_arch_name_is_plain(d.arch->0);
        }
        lemma_lines_after_value(keys()[0], arch_text(d.arch), rest);
    } else if i == 1 {
        if d.cpus is Some {
            lemma_decimal_is_plain(d.cpus->0 as nat);
        }
        lemma_lines_after_value(keys()[1], cpus_text(d.cpus), rest);
    } else if i == 2 {
        lemma_lines_after_value(keys()[2], d.mem, rest);
    } else if i == 3 {
        lemma_lines_after_list(keys()[3], d.kernel_append, rest);
    } else if i == 4 {
        lemma_lines_after_list(keys()[4], d.make_append, rest);
    } else if i == 5 {
        lemma_lines_after_value(keys()[5], d.storage_bus, rest);
    } else if i == 6 {
        lemma_lines_after_list(keys()[6], kconfig_texts(d.config), rest);
    } else {
        lemma_lines_after_list(keys()[7], d.qemu_append, rest);
    }
}

/// The lines of the printed text from a place on are the printed lines from
/// that place on.
pub proof fn lemma_lines_from(d: DepsView, i: int)
    requires
        renders_faithfully(d),
        0 <= i <= 8,
    ensures
        lines(text_from(d, i)) == lines_from(d, i),
    decreases 8 - i,
{
    if i < 8 {
        lemma_lines_from(d, i + 1);
        lemma_group_lines(d, i, text_from(d, i + 1));
    }
}

/// Reading the printed lines of a place adds the requirement of that place
/// to the requirements of the places before it.
pub proof fn lemma_group_reads_back(d: DepsView, i: int)
    requires
        renders_faithfully(d),
        0 <= i < 8,
    ensures
        upto(d, i).with_lines(group_lines(d, i)) == Ok::<DepsView, ErrorView>(upto(d, i + 1)),
{
    let e = upto(d, i);
    let none = Seq::<Seq<char>>::empty();
    if i == 0 {
        if d.arch is Some {
            lemma_with_line_effect(e, 0, d.arch->0.spec_name());
            lemma_parse_finds_names(d.arch->0);
        }
    } else if i == 1 {
        if d.cpus is Some {
            lemma_with_line_effect(e, 1, decimal(d.cpus->0 as nat));
            lemma_decimal_reads_back(d.cpus->0 as nat);
        }
    } else if i == 2 {
        if d.mem is Some {
            lemma_with_line_effect(e, 2, d.mem->0);
        }
    } else if i == 3 {
        if d.kernel_append.len() > 0 {
            lemma_with_line_effect(e, 3, list_value(d.kernel_append));
            lemma_list_value_reads_back(d.kernel_append);
            assert(none + d.kernel_append =~= d.kernel_append);
        } else {
            assert(d.kernel_append =~= none);
        }
    } else if i == 4 {
        if d.make_append.len() > 0 {
            lemma_with_line_effect(e, 4, list_value(d.make_append));
            lemma_list_value_reads_back(d.make_append);
            assert(none + d.make_append =~= d.make_append);
        } else {
            assert(d.make_append =~= none);
        }
    } else if i == 5 {
        if d.storage_bus is Some {
            lemma_with_line_effect(e, 5, d.storage_bus->0);
        }
    } else if i == 6 {
        let texts = kconfig_texts(d.config);
        if d.config.len() > 0 {
            lemma_with_line_effect(e, 6, list_value(texts));
            lemma_list_value_reads_back(texts);
            lemma_kconfigs_read_back(d.config);
            assert(Seq::<KConfigView>::empty() + d.config =~= d.config);
        } else {
            assert(texts.len() == 0);
            assert(d.config =~= Seq::<KConfigView>::empty());
        }
    } else {
        if d.qemu_append.len() > 0 {
            lemma_with_line_effect(e, 7, list_value(d.qemu_append));
            lemma_list_value_reads_back(d.qemu_append);
            assert(none + d.qemu_append =~= d.qemu_append);
        } else {
            assert(d.qemu_append =~= none);
        }
    }
}

/// Reading the printed lines from a place on completes the requirements of
/// the places before it.
pub proof fn lemma_lines_read_back(d: DepsView, i: int)
    requires
        renders_faithfully(d),
        0 <= i <= 8,
    ensures
        upto(d, i).with_lines(lines_from(d, i)) == Ok::<DepsView, ErrorView>(d),
    decreases 8 - i,
{
    if i < 8 {
        lemma_group_reads_back(d, i);
        lemma_lines_read_back(d, i + 1);
        lemma_with_lines_concat(upto(d, i), group_lines(d, i), lines_from(d, i + 1));
    } else {
        assert(upto(d, 8) == d);
    }
}

/// Every printed line from a place on holds a `=`.
pub proof fn lemma_lines_have_keys(d: DepsView, i: int)
    requires
        0 <= i <= 8,
    ensures
        forall|j: int| 0 <= j < lines_from(d, i).len() ==> has_char(#[trigger] lines_from(d, i)[j], '='),
    decreases 8 - i,
{
    if i < 8 {
        lemma_lines_have_keys(d, i + 1);
        lemma_key_is_plain(i);
        let g = group_lines(d, i);
        let rest = lines_from(d, i + 1);
        assert(g.len() <= 1);
        if g.len() == 1 {
            assert(exists|v: Seq<char>| g[0] == keys()[i] + seq!['='] + v);
            let v = choose|v: Seq<char>| g[0] == keys()[i] + seq!['='] + v;
            lemma_line_parts(keys()[i], v);
        }
        assert forall|j: int| 0 <= j < lines_from(d, i).len() implies has_char(
            #[trigger] lines_from(d, i)[j],
            '=',
        ) by {
            if j < g.len() {
                assert(lines_from(d, i)[j] == g[j]);
            } else {
                assert(lines_from(d, i)[j] == rest[j - g.len()]);
            }
        }
    }
}

/// The name of an architecture survives on a line of its own.
pub proof fn lemma_arch_name_is_plain(a: Arch)
    ensures
        plain_value(a.spec_name()),
{
    lemma_reveal_names();
    let s = a.spec_name();
    assert forall|p: int| 0 <= p < s.len() implies s[p] != '\n' && s[p] != '\r' by {}
}

/// The digits of a number survive on a line of their own.
pub proof fn lemma_decimal_is_plain(n: nat)
    ensures
        plain_value(decimal(n)),
{
    lemma_decimal_reads_back(n);
    let s = decimal(n);
    if has_char(s, '\n') {
        let p = choose|p: int| 0 <= p < s.len() && s[p] == '\n';
        assert(is_digit(s[p]));
    }
    assert(is_digit(s[s.len() - 1]));
}

/// Requirements that survive being printed read back as they were: what
/// `rendered` prints is well formed, and reading it yields the requirements
/// again.
pub proof fn lemma_render_then_parse(d: DepsView)
    requires
        renders_faithfully(d),
    ensures
        well_formed(d.rendered()),
        parsed_deps(d.rendered()) == Ok::<DepsView, ErrorView>(d),
{
    lemma_rendered_is_text(d);
    lemma_lines_from(d, 0);
    lemma_lines_read_back(d, 0);
    lemma_lines_have_keys(d, 0);
    assert(upto(d, 0) == DepsView::empty());
}

/// Once requirements are merged into a configuration, the directories
/// derived from it end in the kernel-tree name of the architecture it then
/// has.
pub proof fn lemma_merged_dirs_end_in_kernel_arch(config: ConfigView, deps: DepsView, arch: Arch)
    requires
        deps.merged_into(config).make.arch == Some(arch),
    ensures
        ends_with(deps.merged_into(config).make.kernel_bin_dir(arch), arch.spec_kernel_arch()),
        ends_with(deps.merged_into(config).make.make_build_dir(arch), arch.spec_kernel_arch()),
{
    lemma_derived_dirs_end_in_kernel_arch(deps.merged_into(config).make, arch);
}

} // verus!
