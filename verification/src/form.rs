//! A small labelled-field form for the interface's editable popups: a list
//! of numeric fields with a cursor, edited in place.
//!
//! A field's accepted range is carried as the bit patterns of two `f64`
//! values; reading a value as a number and clamping it to that range is
//! floating-point work done by the application.

use vstd::prelude::*;
use crate::text::{chars_of, string_of, push_char, is_digit, is_digit_char, member};

verus! {

/// One editable line in a form.
#[derive(Debug)]
pub struct Field {
    /// Prompt shown to the left of the value.
    pub label: &'static str,
    /// What the value means, shown under the fields.
    pub help: &'static str,
    /// Text as typed.
    pub value: String,
    /// Accepted range, as the bit patterns of two `f64` bounds.
    pub range_bits: (u64, u64),
}

pub open spec fn field_view(f: Field) -> (Seq<char>, Seq<char>, Seq<char>, (u64, u64)) {
    (f.label@, f.help@, f.value@, f.range_bits)
}

pub open spec fn fields_view(v: Seq<Field>) -> Seq<(Seq<char>, Seq<char>, Seq<char>, (u64, u64))> {
    v.map_values(|f: Field| field_view(f))
}

/// A list of fields with a cursor.
#[derive(Debug)]
pub struct Form {
    fields: Vec<Field>,
    active: usize,
}

/// What typing `c` into a field holding `v` leaves there: only characters of
/// a decimal number are taken, and never a second decimal point.
pub open spec fn typed(v: Seq<char>, c: char) -> Seq<char> {
    if !is_digit(c) && c != '.' {
        v
    } else if c == '.' && v.contains('.') {
        v
    } else {
        v.push(c)
    }
}

/// A form as a value: its fields, as views, and the cursor.
pub type FormModel = (Seq<(Seq<char>, Seq<char>, Seq<char>, (u64, u64))>, nat);

/// The form with the active field's text replaced; a cursor past the last
/// field edits nothing.
pub open spec fn with_active_value(m: FormModel, value: Seq<char>) -> FormModel {
    if m.1 < m.0.len() {
        let f = m.0[m.1 as int];
        (m.0.update(m.1 as int, (f.0, f.1, value, f.3)), m.1)
    } else {
        m
    }
}

/// The active field's text.
pub open spec fn active_text(m: FormModel) -> Seq<char> {
    m.0[m.1 as int].2
}

/// What typing `c` does to a form.
pub open spec fn form_typed(m: FormModel, c: char) -> FormModel {
    with_active_value(m, typed(active_text(m), c))
}

/// What Backspace does to a form.
pub open spec fn form_erased(m: FormModel) -> FormModel {
    let v = active_text(m);
    with_active_value(m, if v.len() > 0 { v.drop_last() } else { v })
}

/// What clearing the active field does to a form.
pub open spec fn form_cleared(m: FormModel) -> FormModel {
    with_active_value(m, Seq::<char>::empty())
}

/// The cursor one field down, wrapping.
pub open spec fn form_next(m: FormModel) -> FormModel {
    if m.0.len() > 0 {
        (m.0, ((m.1 + 1) % m.0.len()) as nat)
    } else {
        m
    }
}

/// The cursor one field up, wrapping.
pub open spec fn form_prev(m: FormModel) -> FormModel {
    if m.0.len() > 0 {
        (m.0, if m.1 > 0 { (m.1 - 1) as nat } else { (m.0.len() - 1) as nat })
    } else {
        m
    }
}

impl Field {
    pub fn new(label: &'static str, help: &'static str, value: String, range_bits: (u64, u64)) -> (f: Field)
        ensures
            field_view(f) == (label@, help@, value@, range_bits),
    {
        Field { label, help, value, range_bits }
    }

    fn with_value(&self, value: String) -> (f: Field)
        ensures
            field_view(f) == (self.label@, self.help@, value@, self.range_bits),
    {
        Field { label: self.label, help: self.help, value, range_bits: self.range_bits }
    }
}

impl Form {
    pub closed spec fn view_fields(&self) -> Seq<(Seq<char>, Seq<char>, Seq<char>, (u64, u64))> {
        fields_view(self.fields@)
    }

    pub closed spec fn cursor(&self) -> nat {
        self.active as nat
    }

    /// The form as a value.
    pub open spec fn model(&self) -> FormModel {
        (self.view_fields(), self.cursor())
    }

    pub fn new(fields: Vec<Field>) -> (f: Form)
        ensures
            f.view_fields() == fields_view(fields@),
            f.cursor() == 0,
    {
        Form { fields, active: 0 }
    }

    pub fn fields(&self) -> (r: &[Field])
        ensures
            fields_view(r@) == self.view_fields(),
    {
        self.fields.as_slice()
    }

    pub fn active(&self) -> (r: usize)
        ensures
            r == self.cursor(),
    {
        self.active
    }

    /// True when `index` is the field being edited.
    pub fn is_active(&self, index: usize) -> (r: bool)
        ensures
            r == (index == self.cursor()),
    {
        index == self.active
    }

    /// Move the cursor down, wrapping past the last field.
    pub fn focus_next(&mut self)
        ensures
            final(self).model() == form_next(old(self).model()),
            final(self).view_fields() == old(self).view_fields(),
            old(self).view_fields().len() > 0 ==> final(self).cursor() as int == (old(self).cursor() as int + 1) % (old(
                self,
            ).view_fields().len() as int),
            old(self).view_fields().len() == 0 ==> final(self).cursor() == old(self).cursor(),
    {
        if self.fields.len() > 0 {
            self.active = ((self.active as u128 + 1) % (self.fields.len() as u128)) as usize;
        }
    }

    /// Move the cursor up, wrapping past the first field.
    pub fn focus_prev(&mut self)
        ensures
            final(self).model() == form_prev(old(self).model()),
            final(self).view_fields() == old(self).view_fields(),
            old(self).view_fields().len() > 0 ==> final(self).cursor() == if old(self).cursor() > 0 {
                (old(self).cursor() - 1) as nat
            } else {
                (old(self).view_fields().len() - 1) as nat
            },
            old(self).view_fields().len() == 0 ==> final(self).cursor() == old(self).cursor(),
    {
        if self.fields.len() > 0 {
            self.active = if self.active > 0 { self.active - 1 } else { self.fields.len() - 1 };
        }
    }

    /// Type a character into the active field.
    pub fn push(&mut self, c: char)
        ensures
            final(self).model() == form_typed(old(self).model(), c),
            final(self).cursor() == old(self).cursor(),
            old(self).cursor() < old(self).view_fields().len() ==> final(self).view_fields() == old(
                self,
            ).view_fields().update(
                old(self).cursor() as int,
                ({
                    let f = old(self).view_fields()[old(self).cursor() as int];
                    (f.0, f.1, typed(f.2, c), f.3)
                }),
            ),
            old(self).cursor() >= old(self).view_fields().len() ==> final(self).view_fields() == old(
                self,
            ).view_fields(),
    {
        let ghost before = fields_view(self.fields@);
        if self.active >= self.fields.len() {
            return;
        }
        let i = self.active;
        let v = chars_of(self.fields[i].value.as_str());
        let dot = ['.'];
        let has_dot = member(v.as_slice(), '.');
        if (!is_digit_char(c) && c != '.') || (c == '.' && has_dot) {
            assert(fields_view(self.fields@) =~= before.update(i as int, (before[i as int].0, before[i as int].1, typed(before[i as int].2, c), before[i as int].3)));
            return;
        }
        let mut value = self.fields[i].value.clone();
        push_char(&mut value, c);
        let f = self.fields[i].with_value(value);
        self.fields.set(i, f);
        assert(fields_view(self.fields@) =~= before.update(i as int, (before[i as int].0, before[i as int].1, typed(before[i as int].2, c), before[i as int].3)));
    }

    /// Delete the active field's last character.
    pub fn backspace(&mut self)
        ensures
            final(self).model() == form_erased(old(self).model()),
            final(self).cursor() == old(self).cursor(),
            old(self).cursor() < old(self).view_fields().len() ==> final(self).view_fields() == old(
                self,
            ).view_fields().update(
                old(self).cursor() as int,
                ({
                    let f = old(self).view_fields()[old(self).cursor() as int];
                    (f.0, f.1, if f.2.len() > 0 { f.2.drop_last() } else { f.2 }, f.3)
                }),
            ),
            old(self).cursor() >= old(self).view_fields().len() ==> final(self).view_fields() == old(
                self,
            ).view_fields(),
    {
        let ghost before = fields_view(self.fields@);
        if self.active >= self.fields.len() {
            return;
        }
        let i = self.active;
        let v = chars_of(self.fields[i].value.as_str());
        let keep = if v.len() > 0 { v.len() - 1 } else { 0 };
        let value = string_of(vstd::slice::slice_subrange(v.as_slice(), 0, keep));
        let f = self.fields[i].with_value(value);
        self.fields.set(i, f);
        proof {
            let b = before[i as int];
            if b.2.len() > 0 {
                assert(b.2.drop_last() =~= v@.subrange(0, keep as int));
            } else {
                assert(b.2 =~= v@.subrange(0, keep as int));
            }
        }
        assert(fields_view(self.fields@) =~= before.update(i as int, (before[i as int].0, before[i as int].1, if before[i as int].2.len() > 0 { before[i as int].2.drop_last() } else { before[i as int].2 }, before[i as int].3)));
    }

    /// Empty the active field.
    pub fn clear_active(&mut self)
        ensures
            final(self).model() == form_cleared(old(self).model()),
            final(self).cursor() == old(self).cursor(),
            old(self).cursor() < old(self).view_fields().len() ==> final(self).view_fields() == old(
                self,
            ).view_fields().update(
                old(self).cursor() as int,
                ({
                    let f = old(self).view_fields()[old(self).cursor() as int];
                    (f.0, f.1, Seq::<char>::empty(), f.3)
                }),
            ),
            old(self).cursor() >= old(self).view_fields().len() ==> final(self).view_fields() == old(
                self,
            ).view_fields(),
    {
        let ghost before = fields_view(self.fields@);
        if self.active >= self.fields.len() {
            return;
        }
        let i = self.active;
        let f = self.fields[i].with_value(String::new());
        self.fields.set(i, f);
        assert(fields_view(self.fields@) =~= before.update(i as int, (before[i as int].0, before[i as int].1, Seq::<char>::empty(), before[i as int].3)));
    }

    /// Overwrite the values, field by field, and return the cursor to the first.
    pub fn reset(&mut self, values: &[String])
        ensures
            final(self).cursor() == 0,
            final(self).view_fields().len() == old(self).view_fields().len(),
            forall|i: int| 0 <= i < old(self).view_fields().len() ==> {
                let f = #[trigger] old(self).view_fields()[i];
                final(self).view_fields()[i] == if i < values@.len() {
                    (f.0, f.1, values@[i]@, f.3)
                } else {
                    f
                }
            },
    {
        let ghost before = fields_view(self.fields@);
        let mut i: usize = 0;
        while i < self.fields.len() && i < values.len()
            invariant
                i <= self.fields.len(),
                i <= values.len(),
                before == fields_view(old(self).fields@),
                fields_view(self.fields@).len() == before.len(),
                forall|j: int| 0 <= j < before.len() ==> {
                    let f = #[trigger] before[j];
                    fields_view(self.fields@)[j] == if j < i {
                        (f.0, f.1, values@[j]@, f.3)
                    } else {
                        f
                    }
                },
            decreases self.fields.len() - i,
        {
            let f = self.fields[i].with_value(values[i].clone());
            let ghost prev = fields_view(self.fields@);
            self.fields.set(i, f);
            assert(fields_view(self.fields@) =~= prev.update(i as int, field_view(f)));
            i = i + 1;
        }
        self.active = 0;
    }
}

} // verus!
