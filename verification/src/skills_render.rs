//! The list of skills that the assistant can load.

use vstd::prelude::*;
use vstd::string::*;
use crate::text::{replace_char, replaced, trim, trim_spec};

verus! {

/// A skill: how it is loaded, and what it is for.
#[derive(Clone, Debug)]
pub struct SkillSummary {
    pub slug: String,
    pub description: String,
}

/// A description on one line.
pub open spec fn one_line(description: Seq<char>) -> Seq<char> {
    trim_spec(replaced(description, '\n', ' '))
}

/// The lines of the skills, one each.
pub open spec fn skill_lines(skills: Seq<SkillSummary>) -> Seq<char>
    decreases skills.len(),
{
    if skills.len() == 0 {
        Seq::empty()
    } else {
        let s = skills.last();
        skill_lines(skills.drop_last()) + "- "@ + s.slug@ + ": "@ + one_line(s.description@)
            + "\n"@
    }
}

/// The list of skills; absent where there is none, or where they could not
/// be read.
pub fn render_skills_block(skills: Option<&Vec<SkillSummary>>) -> (r: Option<String>)
    ensures
        r.deep_view() == match skills {
            Some(v) => if v@.len() > 0 {
                Some(skill_lines(v@))
            } else {
                None
            },
            None => None,
        },
{
    let v = match skills {
        Some(v) => v,
        None => {
            return None;
        },
    };
    if v.len() == 0 {
        return None;
    }
    let mut out = String::new();
    let mut i: usize = 0;
    while i < v.len()
        invariant
            i <= v@.len(),
            out@ == skill_lines(v@.take(i as int)),
        decreases v@.len() - i,
    {
        let flat = replace_char(v[i].description.as_str(), '\n', ' ');
        let desc = trim(flat.as_str());
        out.append("- ");
        out.append(v[i].slug.as_str());
        out.append(": ");
        out.append(desc.as_str());
        out.append("\n");
        proof {
            assert(v@.take(i + 1).drop_last() =~= v@.take(i as int));
            assert(v@.take(i + 1).last() == v@[i as int]);
        }
        i += 1;
    }
    proof {
        assert(v@.take(i as int) =~= v@);
    }
    Some(out)
}

/// A description never breaks its line.
pub proof fn descriptions_stay_on_one_line(description: Seq<char>, i: int)
    requires
        0 <= i < one_line(description).len(),
    ensures
        one_line(description)[i] != '\n',
{
    let flat = replaced(description, '\n', ' ');
    let k = crate::text::CharClass::WhiteSpace;
    let a = crate::text::skip_from(flat, k, 0);
    crate::text::lemma_skip_from(flat, k, 0);
    crate::text::lemma_tail_before(flat, k, flat.len() as int);
    assert(one_line(description)[i] == flat[a + i]);
}

/// Skills are listed one by one, in order, each on a line of its own.
pub proof fn skills_are_listed_in_order(
    a: Seq<SkillSummary>,
    b: Seq<SkillSummary>,
    one: SkillSummary,
)
    ensures
        skill_lines(a + b) == skill_lines(a) + skill_lines(b),
        skill_lines(seq![one]) == "- "@ + one.slug@ + ": "@ + trim_spec(
            replaced(one.description@, '\n', ' '),
        ) + "\n"@,
    decreases b.len(),
{
    if b.len() == 0 {
        assert(a + b =~= a);
        assert(skill_lines(a) + skill_lines(b) =~= skill_lines(a));
    } else {
        skills_are_listed_in_order(a, b.drop_last(), one);
        assert((a + b).drop_last() =~= a + b.drop_last());
        assert(skill_lines(a + b) =~= skill_lines(a) + skill_lines(b));
    }
    assert(seq![one].drop_last() =~= Seq::<SkillSummary>::empty());
    assert(seq![one].last() == one);
    reveal_with_fuel(skill_lines, 2);
    assert(skill_lines(seq![one]) =~= "- "@ + one.slug@ + ": "@ + one_line(one.description@)
        + "\n"@);
}

} // verus!
