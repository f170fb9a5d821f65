//! Unit-file specifier (`%`) expansion, per `systemd.unit(5)`.
//!
//! Specifiers are expanded when a unit file is loaded, before the command line
//! is split and before environment variables are substituted. Unknown
//! specifiers are left untouched.

use vstd::prelude::*;
use vstd::string::*;

use crate::text::{
    chars, chr, cut, cut_last, find_last_unique, find_unique, lacks, rsplit_once, split_once, Text,
};

verus! {

/// Everything needed to expand specifiers for one unit.
#[derive(Debug, Clone)]
pub struct SpecifierContext {
    /// Full unit name, e.g. `foo@bar.service`.
    pub unit_name: String,
    /// Runtime directory (`%t`).
    pub runtime_dir: String,
    /// User name (`%u`).
    pub user_name: String,
    /// UID as decimal (`%U`).
    pub uid: String,
    /// Home directory (`%h`).
    pub home: String,
    /// Hostname (`%H`).
    pub hostname: String,
    /// Machine ID (`%m`).
    pub machine_id: String,
}

/// What a unit's specifiers stand for, as specifications see it.
pub ghost struct Specifiers {
    pub unit_name: Text,
    pub runtime_dir: Text,
    pub user_name: Text,
    pub uid: Text,
    pub home: Text,
    pub hostname: Text,
    pub machine_id: Text,
}

impl View for SpecifierContext {
    type V = Specifiers;

    open spec fn view(&self) -> Specifiers {
        Specifiers {
            unit_name: self.unit_name@,
            runtime_dir: self.runtime_dir@,
            user_name: self.user_name@,
            uid: self.uid@,
            home: self.home@,
            hostname: self.hostname@,
            machine_id: self.machine_id@,
        }
    }
}

/// The part of a unit name before `@`, or else before the type suffix, which is
/// what follows the last `.`.
pub open spec fn name_prefix(name: Text) -> Text {
    match cut(name, '@') {
        Some((a, _)) => a,
        None => match cut_last(name, '.') {
            Some((a, _)) => a,
            None => name,
        },
    }
}

/// The part of a unit name between `@` and the type suffix. Without a suffix it
/// is empty.
pub open spec fn name_instance(name: Text) -> Text {
    match cut(name, '@') {
        Some((_, rest)) => match cut_last(rest, '.') {
            Some((a, _)) => a,
            None => seq![],
        },
        None => seq![],
    }
}

/// What the character after a `%` stands for.
pub open spec fn specifier_value(c: Specifiers, x: char) -> Text {
    if x == '%' {
        seq!['%']
    } else if x == 'n' || x == 'N' {
        c.unit_name
    } else if x == 'p' || x == 'P' {
        name_prefix(c.unit_name)
    } else if x == 'i' || x == 'I' {
        name_instance(c.unit_name)
    } else if x == 't' {
        c.runtime_dir
    } else if x == 'u' {
        c.user_name
    } else if x == 'U' {
        c.uid
    } else if x == 'h' {
        c.home
    } else if x == 'H' {
        c.hostname
    } else if x == 'm' {
        c.machine_id
    } else {
        seq!['%', x]
    }
}

/// A text with its specifiers replaced. A `%` at the end stays.
pub open spec fn specified(c: Specifiers, s: Text) -> Text
    decreases s.len(),
{
    if s.len() == 0 {
        seq![]
    } else if s[0] != '%' {
        seq![s[0]] + specified(c, s.skip(1))
    } else if s.len() == 1 {
        seq!['%']
    } else {
        specifier_value(c, s[1]) + specified(c, s.skip(2))
    }
}

impl SpecifierContext {
    /// The unit prefix (`%p`): the part before `@`, or before the type suffix.
    pub fn prefix(&self) -> (r: &str)
        ensures
            r@ == name_prefix(self.unit_name@),
    {
        match split_once(self.unit_name.as_str(), '@') {
            Some((a, _)) => a,
            None => match rsplit_once(self.unit_name.as_str(), '.') {
                Some((a, _)) => a,
                None => self.unit_name.as_str(),
            },
        }
    }

    /// The instance name (`%i`): the text between `@` and the type suffix,
    /// empty when the unit is not templated.
    pub fn instance(&self) -> (r: &str)
        ensures
            r@ == name_instance(self.unit_name@),
    {
        proof {
            reveal_strlit("");
            assert(""@ =~= seq![]);
        }
        match split_once(self.unit_name.as_str(), '@') {
            Some((_, rest)) => match rsplit_once(rest, '.') {
                Some((a, _)) => a,
                None => "",
            },
            None => "",
        }
    }

    /// Expand all specifiers in `s`.
    pub fn expand(&self, s: &str) -> (r: String)
        ensures
            r@ == specified(self@, s@),
    {
        let v = chars(s);
        let mut out = String::new();
        let mut i: usize = 0;
        assert(v@.skip(0) =~= v@);
        while i < v.len()
            invariant
                v@ == s@,
                i <= v.len(),
                out@ + specified(self@, v@.skip(i as int)) == specified(self@, s@),
            decreases v.len() - i,
        {
            let ghost rest = v@.skip(i as int);
            let ghost before = out@;
            assert(rest[0] == v@[i as int]);
            if v[i] != '%' {
                out.push(v[i]);
                proof {
                    assert(rest.skip(1) =~= v@.skip(i + 1));
                    assert(out@ + specified(self@, v@.skip(i + 1)) =~= before + specified(
                        self@,
                        rest,
                    ));
                }
                i = i + 1;
            } else if i + 1 == v.len() {
                out.push('%');
                assert(out@ =~= before + specified(self@, rest));
                return out;
            } else {
                let c = v[i + 1];
                assert(rest[1] == c);
                if c == '%' {
                    out.push('%');
                } else if c == 'n' || c == 'N' {
                    out.append(self.unit_name.as_str());
                } else if c == 'p' || c == 'P' {
                    out.append(self.prefix());
                } else if c == 'i' || c == 'I' {
                    out.append(self.instance());
                } else if c == 't' {
                    out.append(self.runtime_dir.as_str());
                } else if c == 'u' {
                    out.append(self.user_name.as_str());
                } else if c == 'U' {
                    out.append(self.uid.as_str());
                } else if c == 'h' {
                    out.append(self.home.as_str());
                } else if c == 'H' {
                    out.append(self.hostname.as_str());
                } else if c == 'm' {
                    out.append(self.machine_id.as_str());
                } else {
                    out.push('%');
                    out.push(c);
                }
                proof {
                    assert(out@ =~= before + specifier_value(self@, c));
                    assert(rest.skip(2) =~= v@.skip(i + 2));
                    assert(out@ + specified(self@, v@.skip(i + 2)) =~= before + specified(
                        self@,
                        rest,
                    ));
                }
                i = i + 2;
            }
        }
        assert(v@.skip(i as int) =~= seq![]);
        assert(out@ =~= out@ + specified(self@, v@.skip(i as int)));
        out
    }
}

/// Each `%` written twice.
pub open spec fn escaped(s: Text) -> Text
    decreases s.len(),
{
    if s.len() == 0 {
        seq![]
    } else if s[0] == '%' {
        seq!['%', '%'] + escaped(s.skip(1))
    } else {
        seq![s[0]] + escaped(s.skip(1))
    }
}

/// A text whose `%` are written twice expands to that text.
pub proof fn escaped_text_expands_to_itself(c: Specifiers, s: Text)
    ensures
        specified(c, escaped(s)) == s,
    decreases s.len(),
{
    if s.len() > 0 {
        escaped_text_expands_to_itself(c, s.skip(1));
        let e = escaped(s);
        if s[0] == '%' {
            assert(e.skip(2) =~= escaped(s.skip(1)));
        } else {
            assert(e.skip(1) =~= escaped(s.skip(1)));
        }
        assert(specified(c, e) =~= s);
    }
}

/// Text before the first `%` stays, and what follows is expanded by itself.
pub proof fn plain_text_stays(c: Specifiers, a: Text, b: Text)
    requires
        lacks(a, '%'),
    ensures
        specified(c, a + b) == a + specified(c, b),
    decreases a.len(),
{
    let s = a + b;
    if a.len() == 0 {
        assert(s =~= b);
        assert(a + specified(c, b) =~= specified(c, b));
    } else {
        assert(s[0] == a[0]);
        assert(s.skip(1) =~= a.skip(1) + b);
        assert forall|i: int| 0 <= i < a.skip(1).len() implies #[trigger] a.skip(1)[i] != '%' by {
            assert(a.skip(1)[i] == a[i + 1]);
        }
        plain_text_stays(c, a.skip(1), b);
        assert(specified(c, s) =~= a + specified(c, b));
    }
}

/// What each specifier stands for, in whatever text it stands; one that is not
/// known stays.
pub proof fn specifiers_stand_for_what_they_name(c: SpecifierContext, x: char, rest: Text)
    ensures
        specified(c@, seq!['%', '%'] + rest) == seq!['%'] + specified(c@, rest),
        specified(c@, seq!['%', 'n'] + rest) == c.unit_name@ + specified(c@, rest),
        specified(c@, seq!['%', 'N'] + rest) == c.unit_name@ + specified(c@, rest),
        specified(c@, seq!['%', 't'] + rest) == c.runtime_dir@ + specified(c@, rest),
        specified(c@, seq!['%', 'u'] + rest) == c.user_name@ + specified(c@, rest),
        specified(c@, seq!['%', 'U'] + rest) == c.uid@ + specified(c@, rest),
        specified(c@, seq!['%', 'h'] + rest) == c.home@ + specified(c@, rest),
        specified(c@, seq!['%', 'H'] + rest) == c.hostname@ + specified(c@, rest),
        specified(c@, seq!['%', 'm'] + rest) == c.machine_id@ + specified(c@, rest),
        specified(c@, seq!['%', 'p'] + rest) == name_prefix(c.unit_name@) + specified(c@, rest),
        specified(c@, seq!['%', 'P'] + rest) == name_prefix(c.unit_name@) + specified(c@, rest),
        specified(c@, seq!['%', 'i'] + rest) == name_instance(c.unit_name@) + specified(c@, rest),
        specified(c@, seq!['%', 'I'] + rest) == name_instance(c.unit_name@) + specified(c@, rest),
        x != '%' && x != 'n' && x != 'N' && x != 't' && x != 'u' && x != 'U' && x != 'h' && x != 'H' && x != 'm' && x != 'p' && x != 'P' && x != 'i' && x != 'I' ==> specified(c@, seq!['%', x] + rest) == seq!['%', x]
            + specified(c@, rest),
        specified(c@, seq!['%']) == seq!['%'],
{
    assert((seq!['%', '%'] + rest).skip(2) =~= rest);
    assert((seq!['%', 'n'] + rest).skip(2) =~= rest);
    assert((seq!['%', 'N'] + rest).skip(2) =~= rest);
    assert((seq!['%', 't'] + rest).skip(2) =~= rest);
    assert((seq!['%', 'u'] + rest).skip(2) =~= rest);
    assert((seq!['%', 'U'] + rest).skip(2) =~= rest);
    assert((seq!['%', 'h'] + rest).skip(2) =~= rest);
    assert((seq!['%', 'H'] + rest).skip(2) =~= rest);
    assert((seq!['%', 'm'] + rest).skip(2) =~= rest);
    assert((seq!['%', 'p'] + rest).skip(2) =~= rest);
    assert((seq!['%', 'P'] + rest).skip(2) =~= rest);
    assert((seq!['%', 'i'] + rest).skip(2) =~= rest);
    assert((seq!['%', 'I'] + rest).skip(2) =~= rest);
    assert((seq!['%', x] + rest).skip(2) =~= rest);
}

/// The prefix of an instance is what stands before the `@`, the instance what
/// stands between it and the suffix. Where there is no `@`, the prefix is the name
/// without its suffix, and there is no instance.
pub proof fn prefix_and_instance_are_parts_of_the_name(p: Text, i: Text, suffix: Text)
    requires
        lacks(p, '@'),
        lacks(suffix, '.'),
        lacks(suffix, '@'),
    ensures
        name_prefix(p + seq!['@'] + i + seq!['.'] + suffix) == p,
        name_instance(p + seq!['@'] + i + seq!['.'] + suffix) == i,
        name_prefix(p + seq!['.'] + suffix) == p,
        name_instance(p + seq!['.'] + suffix) == Seq::<char>::empty(),
{
    let rest = i + seq!['.'] + suffix;
    let name = p + seq!['@'] + i + seq!['.'] + suffix;
    let k = p.len() as int;
    assert forall|j: int| 0 <= j < k implies !chr('@')(#[trigger] name[j]) by {
        assert(name[j] == p[j]);
    }
    assert(name[k] == '@');
    find_unique(name, chr('@'), k);
    assert(name.take(k) =~= p);
    assert(name.skip(k + 1) =~= rest);
    last_point_is_before_the_suffix(i, suffix);
    let short = p + seq!['.'] + suffix;
    assert forall|j: int| 0 <= j < short.len() implies !chr('@')(#[trigger] short[j]) by {
        if j < k {
            assert(short[j] == p[j]);
        } else if j > k {
            assert(short[j] == suffix[j - k - 1]);
        }
    }
    find_unique(short, chr('@'), short.len() as int);
    last_point_is_before_the_suffix(p, suffix);
}

proof fn last_point_is_before_the_suffix(stem: Text, suffix: Text)
    requires
        lacks(suffix, '.'),
    ensures
        cut_last(stem + seq!['.'] + suffix, '.') == Some((stem, suffix)),
{
    let s = stem + seq!['.'] + suffix;
    let k = (stem.len() + 1) as int;
    assert forall|j: int| k <= j < s.len() implies !chr('.')(#[trigger] s[j]) by {
        assert(s[j] == suffix[j - k]);
    }
    assert(s[k - 1] == '.');
    find_last_unique(s, chr('.'), k);
    assert(s.take(k - 1) =~= stem);
    assert(s.skip(k) =~= suffix);
}

} // verus!
