use vstd::prelude::*;

verus! {

use vstd::std_specs::iter::IteratorSpec;

broadcast use vstd::string::next_postcondition, vstd::string::axiom_spec_iter;

/// Case folding of one character: ASCII capital letters (`A`–`Z`) and the
/// Latin-1 capital letters (`À`–`Þ`, accented vowels and `Ñ` among them, but
/// not the multiplication sign that sits between them) map to their
/// lower-case form; every other character is left unchanged.
pub open spec fn pliegue_char(c: char) -> char {
    if (65 <= c as u32 && c as u32 <= 90) || (192 <= c as u32 && c as u32 <= 222 && c as u32
        != 215) {
        ((c as u32 + 32) as u8) as char
    } else {
        c
    }
}

/// Character-wise case folding of a whole text.
pub open spec fn plegada(s: Seq<char>) -> Seq<char> {
    Seq::new(s.len(), |i: int| pliegue_char(s[i]))
}

/// The needle `n` occurs in the haystack `h` starting at position `i`.
pub open spec fn coincide_en(h: Seq<char>, n: Seq<char>, i: int) -> bool {
    forall|j: int| 0 <= j < n.len() ==> h[i + j] == n[j]
}

/// Substring containment: `n` occurs somewhere in `h` (the empty needle
/// occurs in every haystack).
pub open spec fn contiene(h: Seq<char>, n: Seq<char>) -> bool {
    exists|i: int| 0 <= i && i + n.len() <= h.len() && coincide_en(h, n, i)
}

/// The moderation rule: a description passes when, after case folding, it
/// contains none of the banned terms as a substring. Matching is raw
/// containment, without word boundaries: a term inside a longer word still
/// rejects the description.
pub open spec fn descripcion_aprobada(d: Seq<char>) -> bool {
    &&& !contiene(plegada(d), "pornografía"@)
    &&& !contiene(plegada(d), "violencia"@)
    &&& !contiene(plegada(d), "odio"@)
}

/// Case folding of one character, executable form.
pub fn plegar_char(c: char) -> (r: char)
    ensures
        r == pliegue_char(c),
{
    let u = c as u32;
    if (65 <= u && u <= 90) || (192 <= u && u <= 222 && u != 215) {
        ((u + 32) as u8) as char
    } else {
        c
    }
}

/// Collects the characters of a string slice into a vector.
pub fn a_caracteres(s: &str) -> (r: Vec<char>)
    ensures
        r@ == s@,
{
    let mut it = s.chars();
    let mut r: Vec<char> = Vec::new();
    loop
        invariant
            it.decrease() is Some,
            r@ + it.remaining() == s@,
        ensures
            it.remaining().len() == 0,
            r@ + it.remaining() == s@,
        decreases it.decrease()->0,
    {
        let ghost antes = it;
        match it.next() {
            Some(c) => {
                proof {
                    assert(antes.remaining().len() > 0);
                }
                let ghost r_antes = r@;
                r.push(c);
                proof {
                    assert(r@ + it.remaining() =~= r_antes + antes.remaining());
                }
            },
            None => {
                break;
            },
        }
    }
    proof {
        assert(r@ + it.remaining() =~= r@);
    }
    r
}

/// Case folding of a whole character vector.
pub fn plegar_vec(v: &Vec<char>) -> (r: Vec<char>)
    ensures
        r@ == plegada(v@),
{
    let mut r: Vec<char> = Vec::new();
    let mut i: usize = 0;
    while i < v.len()
        invariant
            i <= v@.len(),
            r@ == plegada(v@).take(i as int),
        decreases v@.len() - i,
    {
        let ghost r_antes = r@;
        r.push(plegar_char(v[i]));
        proof {
            assert(r@ =~= plegada(v@).take(i + 1));
        }
        i += 1;
    }
    proof {
        assert(plegada(v@).take(v@.len() as int) =~= plegada(v@));
    }
    r
}

/// Collects a string slice into characters and case-folds them.
pub fn plegar_str(s: &str) -> (r: Vec<char>)
    ensures
        r@ == plegada(s@),
{
    let cs = a_caracteres(s);
    plegar_vec(&cs)
}

/// Checks whether the needle occurs in the haystack at position `i`.
fn coincide_aqui(h: &Vec<char>, n: &Vec<char>, i: usize) -> (r: bool)
    requires
        i + n@.len() <= h@.len(),
    ensures
        r == coincide_en(h@, n@, i as int),
{
    let largo = h.len();
    proof {
        assert(h@.len() == largo);
    }
    let mut j: usize = 0;
    while j < n.len()
        invariant
            h@.len() <= usize::MAX,
            i + n@.len() <= h@.len(),
            j <= n@.len(),
            forall|m: int| 0 <= m < j ==> h@[i + m] == n@[m],
        decreases n@.len() - j,
    {
        if h[i + j] != n[j] {
            return false;
        }
        j += 1;
    }
    true
}

/// Substring search: decides `contiene(h@, n@)` by scanning every position.
pub fn contiene_sub(h: &Vec<char>, n: &Vec<char>) -> (r: bool)
    ensures
        r == contiene(h@, n@),
{
    if n.len() == 0 {
        proof {
            assert(coincide_en(h@, n@, 0));
        }
        return true;
    }
    if n.len() > h.len() {
        return false;
    }
    let tope = h.len() - n.len();
    let mut i: usize = 0;
    while i <= tope
        invariant
            h@.len() <= usize::MAX,
            1 <= n@.len() <= h@.len(),
            tope == h@.len() - n@.len(),
            i <= tope + 1,
            forall|k: int| 0 <= k < i ==> !coincide_en(h@, n@, k),
        decreases tope + 1 - i,
    {
        if coincide_aqui(h, n, i) {
            return true;
        }
        i += 1;
    }
    proof {
        assert forall|k: int| 0 <= k && k + n@.len() <= h@.len() implies !coincide_en(
            h@,
            n@,
            k,
        ) by {
            assert(k <= tope);
        }
    }
    false
}

} // verus!
