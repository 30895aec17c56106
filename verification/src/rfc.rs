use rand::Rng;
use vstd::prelude::*;
use vstd::string::StringExecFns;
use vstd::utf8::{encode_utf8, is_char_boundary};

use crate::text::{
    can_cut, can_cut_at, cut_at, head_bytes, law_cut_splits_bytes, push_char, split_by, split_on,
    tail_bytes,
};

verus! {

/// The form from which an RFC (a Mexican taxpayer code) is made: both
/// surnames, the given name, and the birth date as `YYYY-MM-DD`.
pub struct FormRfc {
    /// Paternal surname.
    pub ap_pat: String,
    /// Maternal surname.
    pub ap_mat: String,
    /// Given name.
    pub nombre: String,
    /// Birth date, its parts separated by `-`.
    pub nacimiento: String,
}

/// What `str::to_uppercase` gives for a string (by the Unicode uppercase
/// mapping of the standard library).
pub uninterp spec fn uppercase_of(s: Seq<char>) -> Seq<char>;

/// Calls `str::to_uppercase`.  The contract claims only that the result is
/// a function of the characters of `s`; which uppercase forms the Unicode
/// tables give is left unsaid.
#[verifier::external_body]
fn to_upper(s: &str) -> (up: String)
    ensures
        up@ == uppercase_of(s@),
{
    s.to_uppercase()
}

/// Draws a number with `rand::Rng::gen_range(low..high)` from the thread's
/// generator.  The contract claims only what every outcome satisfies: it lies
/// in the half-open range.
#[verifier::external_body]
fn random_in(low: u8, high: u8) -> (r: u8)
    requires
        low < high,
    ensures
        low <= r < high,
{
    rand::thread_rng().gen_range(low..high)
}

/// The parts of a birth date, split at `-`.
pub open spec fn date_parts(nacimiento: Seq<char>) -> Seq<Seq<char>> {
    split_by(nacimiento, '-')
}

/// A date from which the code can take day, month and year: at least three
/// parts, the first of which can be cut after two bytes.
pub open spec fn date_usable(nacimiento: Seq<char>) -> bool {
    &&& date_parts(nacimiento).len() >= 3
    &&& can_cut(date_parts(nacimiento)[0], 2)
}

/// A form from which the code can be made without slicing a string out of
/// bounds or inside a character.
pub open spec fn form_usable(f: FormRfc) -> bool {
    &&& can_cut(f.ap_pat@, 2)
    &&& can_cut(f.ap_mat@, 1)
    &&& can_cut(f.nombre@, 1)
    &&& date_usable(f.nacimiento@)
}

/// The decimal digit for `d` (below ten).
pub open spec fn digit_char(d: u8) -> char {
    ((d + 48) as u8) as char
}

/// The code from its parts: the uppercased name pieces, then the third,
/// second and first (without its first two bytes) date parts, then two
/// letters and a digit.
pub open spec fn rfc_text(
    pat_up: Seq<char>,
    mat_up: Seq<char>,
    nom_up: Seq<char>,
    nacimiento: Seq<char>,
    l1: u8,
    l2: u8,
    d: u8,
) -> Seq<char> {
    let p = date_parts(nacimiento);
    pat_up + mat_up + nom_up + p[2] + p[1] + tail_bytes(p[0], 2) + seq![
        l1 as char,
        l2 as char,
        digit_char(d),
    ]
}

/// The code of a form with the given letters and digit: the first two
/// bytes of the paternal surname, the first byte of the maternal surname
/// and of the given name, each uppercased, then day, month and the year
/// without its first two bytes, then the letters and the digit.
pub open spec fn rfc_of(f: FormRfc, l1: u8, l2: u8, d: u8) -> Seq<char> {
    rfc_text(
        uppercase_of(head_bytes(f.ap_pat@, 2)),
        uppercase_of(head_bytes(f.ap_mat@, 1)),
        uppercase_of(head_bytes(f.nombre@, 1)),
        f.nacimiento@,
        l1,
        l2,
        d,
    )
}

/// Whether a code can be made from the form (see `form_usable`).
pub fn form_is_usable(f: &FormRfc) -> (ok: bool)
    ensures
        ok == form_usable(*f),
{
    if !can_cut_at(f.ap_pat.as_str(), 2) || !can_cut_at(f.ap_mat.as_str(), 1) || !can_cut_at(
        f.nombre.as_str(),
        1,
    ) {
        return false;
    }
    let parts = split_on(f.nacimiento.as_str(), '-');
    if parts.len() < 3 {
        return false;
    }
    can_cut_at(parts[0], 2)
}

/// Puts a code together from the uppercased name pieces, the birth date,
/// two letters and a digit.
pub fn assemble_rfc(
    pat_up: &str,
    mat_up: &str,
    nom_up: &str,
    nacimiento: &str,
    l1: u8,
    l2: u8,
    d: u8,
) -> (rfc: String)
    requires
        date_usable(nacimiento@),
        d < 10,
    ensures
        rfc@ == rfc_text(pat_up@, mat_up@, nom_up@, nacimiento@, l1, l2, d),
{
    let fecha = split_on(nacimiento, '-');
    let year = cut_at(fecha[0], 2);
    let mut rfc = String::from_str(pat_up);
    rfc.append(mat_up);
    rfc.append(nom_up);
    rfc.append(fecha[2]);
    rfc.append(fecha[1]);
    rfc.append(year.1);
    push_char(&mut rfc, l1 as char);
    push_char(&mut rfc, l2 as char);
    push_char(&mut rfc, (d + 48) as char);
    assert(rfc@ =~= rfc_text(pat_up@, mat_up@, nom_up@, nacimiento@, l1, l2, d));
    rfc
}

/// Makes the code for a form: its fixed part from the form, then two
/// letters from `A` to `Y` and a digit from `0` to `8`, drawn at random.
pub fn compute_rfc(f: &FormRfc) -> (rfc: String)
    requires
        form_usable(*f),
    ensures
        exists|l1: u8, l2: u8, d: u8|
            65 <= l1 < 90 && 65 <= l2 < 90 && d < 9 && rfc@ == rfc_of(*f, l1, l2, d),
{
    let pat_up = to_upper(cut_at(f.ap_pat.as_str(), 2).0);
    let mat_up = to_upper(cut_at(f.ap_mat.as_str(), 1).0);
    let nom_up = to_upper(cut_at(f.nombre.as_str(), 1).0);
    let l1 = random_in(65, 90);
    let l2 = random_in(65, 90);
    let d = random_in(0, 9);
    let rfc = assemble_rfc(
        pat_up.as_str(),
        mat_up.as_str(),
        nom_up.as_str(),
        f.nacimiento.as_str(),
        l1,
        l2,
        d,
    );
    assert(rfc@ == rfc_of(*f, l1, l2, d));
    rfc
}

/// The layout of a code put together from its parts: the three name pieces
/// in order, then the third date part (the day), the second (the month), and
/// the first (the year) without its first two bytes, then the two letters and
/// the decimal digit of `d`; each section at its own place, whatever the
/// parts contain.
pub proof fn law_code_layout(
    pat_up: Seq<char>,
    mat_up: Seq<char>,
    nom_up: Seq<char>,
    nacimiento: Seq<char>,
    l1: u8,
    l2: u8,
    d: u8,
)
    requires
        d < 10,
    ensures
        ({
            let r = rfc_text(pat_up, mat_up, nom_up, nacimiento, l1, l2, d);
            let p = split_by(nacimiento, '-');
            let year = tail_bytes(p[0], 2);
            let a = pat_up.len() as int;
            let b = a + mat_up.len();
            let c = b + nom_up.len();
            let e = c + p[2].len();
            let g = e + p[1].len();
            let h = g + year.len();
            &&& r.len() == h + 3
            &&& r.subrange(0, a) == pat_up
            &&& r.subrange(a, b) == mat_up
            &&& r.subrange(b, c) == nom_up
            &&& r.subrange(c, e) == p[2]
            &&& r.subrange(e, g) == p[1]
            &&& r.subrange(g, h) == year
            &&& (can_cut(p[0], 2) ==> encode_utf8(r.subrange(g, h)) == encode_utf8(p[0]).subrange(
                2,
                encode_utf8(p[0]).len() as int,
            ))
            &&& r[h] == l1 as char
            &&& r[h + 1] == l2 as char
            &&& r[h + 2] as u32 == 48 + d
        }),
{
    let r = rfc_text(pat_up, mat_up, nom_up, nacimiento, l1, l2, d);
    let p = split_by(nacimiento, '-');
    let year = tail_bytes(p[0], 2);
    let a = pat_up.len() as int;
    let b = a + mat_up.len();
    let c = b + nom_up.len();
    let e = c + p[2].len();
    let g = e + p[1].len();
    let h = g + year.len();
    assert(r.subrange(0, a) =~= pat_up);
    assert(r.subrange(a, b) =~= mat_up);
    assert(r.subrange(b, c) =~= nom_up);
    assert(r.subrange(c, e) =~= p[2]);
    assert(r.subrange(e, g) =~= p[1]);
    assert(r.subrange(g, h) =~= year);
    if can_cut(p[0], 2) {
        law_cut_splits_bytes(p[0], 2);
    }
    assert(r[h + 2] == digit_char(d));
}

/// The code of a form: the uppercased first two bytes of the paternal
/// surname, the uppercased first byte of the maternal surname and of the
/// given name (each field itself, whatever follows that byte), then day,
/// month and the year without its first two bytes, then the two letters and
/// the decimal digit of `d`.
pub proof fn law_code_from_form(f: FormRfc, l1: u8, l2: u8, d: u8)
    requires
        d < 10,
    ensures
        ({
            let r = rfc_of(f, l1, l2, d);
            let p = split_by(f.nacimiento@, '-');
            let pat = uppercase_of(head_bytes(f.ap_pat@, 2));
            let mat = uppercase_of(head_bytes(f.ap_mat@, 1));
            let nom = uppercase_of(head_bytes(f.nombre@, 1));
            let a = pat.len() as int;
            let b = a + mat.len();
            let c = b + nom.len();
            &&& r.len() >= c + 3
            &&& r.subrange(0, a) == pat
            &&& r.subrange(a, b) == mat
            &&& r.subrange(b, c) == nom
            &&& r.subrange(c, r.len() - 3) == p[2] + p[1] + tail_bytes(p[0], 2)
            &&& r[r.len() - 3] == l1 as char
            &&& r[r.len() - 2] == l2 as char
            &&& r[r.len() - 1] as u32 == 48 + d
        }),
{
    let r = rfc_of(f, l1, l2, d);
    let p = split_by(f.nacimiento@, '-');
    let pat = uppercase_of(head_bytes(f.ap_pat@, 2));
    let mat = uppercase_of(head_bytes(f.ap_mat@, 1));
    let nom = uppercase_of(head_bytes(f.nombre@, 1));
    law_code_layout(pat, mat, nom, f.nacimiento@, l1, l2, d);
    let c = (pat.len() + mat.len() + nom.len()) as int;
    let h = c + p[2].len() + p[1].len() + tail_bytes(p[0], 2).len();
    assert(r.subrange(c, h) =~= p[2] + p[1] + tail_bytes(p[0], 2)) by {
        assert(r.subrange(c, h) =~= r.subrange(c, c + p[2].len()) + r.subrange(
            c + p[2].len(),
            c + p[2].len() + p[1].len(),
        ) + r.subrange(c + p[2].len() + p[1].len(), h));
    }
}

/// A code reads only the first bytes of the name fields: two forms whose
/// paternal surnames agree in their first two bytes, whose maternal surnames
/// and given names agree in their first byte, and whose birth dates agree,
/// give the same code with the same letters and digit.
pub proof fn law_code_reads_only_first_bytes(f: FormRfc, g: FormRfc, l1: u8, l2: u8, d: u8)
    requires
        head_bytes(f.ap_pat@, 2) == head_bytes(g.ap_pat@, 2),
        head_bytes(f.ap_mat@, 1) == head_bytes(g.ap_mat@, 1),
        head_bytes(f.nombre@, 1) == head_bytes(g.nombre@, 1),
        f.nacimiento@ == g.nacimiento@,
    ensures
        rfc_of(f, l1, l2, d) == rfc_of(g, l1, l2, d),
{
}

/// A code ends in two letters from `A` to `Y` and a digit from `0` to `8`,
/// after the part that the form fixes.
pub proof fn law_rfc_ends_in_letters_and_digit(f: FormRfc, l1: u8, l2: u8, d: u8)
    requires
        65 <= l1 < 90,
        65 <= l2 < 90,
        d < 9,
    ensures
        ({
            let r = rfc_of(f, l1, l2, d);
            &&& r.len() >= 3
            &&& 'A' <= r[r.len() - 3] <= 'Y'
            &&& 'A' <= r[r.len() - 2] <= 'Y'
            &&& '0' <= r[r.len() - 1] <= '8'
            &&& r[r.len() - 1] as u32 == 48 + d
        }),
{
    law_code_from_form(f, l1, l2, d);
}

/// A form is usable exactly when every slice that the code takes is in
/// bounds and on a character boundary: the paternal surname cut after two
/// bytes, the maternal surname and the given name after one, and the birth
/// date having at least three dash-separated parts, the first of which is
/// cut after two bytes.  Nothing else about the fields matters.
pub proof fn law_usable_exactly_when_slices_fit(f: FormRfc)
    ensures
        form_usable(f) <==> {
            &&& is_char_boundary(encode_utf8(f.ap_pat@), 2)
            &&& is_char_boundary(encode_utf8(f.ap_mat@), 1)
            &&& is_char_boundary(encode_utf8(f.nombre@), 1)
            &&& split_by(f.nacimiento@, '-').len() >= 3
            &&& is_char_boundary(encode_utf8(split_by(f.nacimiento@, '-')[0]), 2)
        },
{
}

} // verus!
