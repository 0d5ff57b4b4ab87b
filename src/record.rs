use vstd::prelude::*;

verus! {

/// The column that holds a row's identifier.
pub open spec fn code_column() -> Seq<char> {
    "code"@
}

/// The column that holds the source-language text.
pub open spec fn label_column() -> Seq<char> {
    "label"@
}

/// The column that holds the English translation.
pub open spec fn label_en_column() -> Seq<char> {
    "label_en"@
}

/// The column that holds the German translation.
pub open spec fn label_de_column() -> Seq<char> {
    "label_de"@
}

/// One row of the table.
#[derive(Clone, Debug, PartialEq, Eq)]
pub struct Record {
    pub code: String,
    pub label: String,
    pub label_en: Option<String>,
    pub label_de: Option<String>,
}

/// A row as plain sequences of characters.
pub struct RowView {
    pub code: Seq<char>,
    pub label: Seq<char>,
    pub label_en: Option<Seq<char>>,
    pub label_de: Option<Seq<char>>,
}

pub open spec fn opt_view(o: Option<String>) -> Option<Seq<char>> {
    match o {
        Some(s) => Some(s@),
        None => None,
    }
}

impl View for Record {
    type V = RowView;

    open spec fn view(&self) -> RowView {
        RowView {
            code: self.code@,
            label: self.label@,
            label_en: opt_view(self.label_en),
            label_de: opt_view(self.label_de),
        }
    }
}

/// Why a line of the table could not be read as a row.
#[derive(Clone, Debug, PartialEq, Eq)]
pub enum DecodeError {
    /// The line has another number of fields than the header.
    FieldCount { expected: usize, found: usize },
    /// The header lacks a required column.
    MissingColumn { name: String },
}

pub open spec fn views(v: Seq<String>) -> Seq<Seq<char>> {
    v.map_values(|s: String| s@)
}

/// Column `i` is the first one of the header named `name`.
pub open spec fn is_first_column(headers: Seq<Seq<char>>, name: Seq<char>, i: int) -> bool {
    &&& 0 <= i < headers.len()
    &&& headers[i] == name
    &&& forall|j: int| 0 <= j < i ==> headers[j] != name
}

pub open spec fn has_column(headers: Seq<Seq<char>>, name: Seq<char>) -> bool {
    exists|i: int| 0 <= i < headers.len() && headers[i] == name
}

/// The field under the first column named `name`, if the header has one.
pub open spec fn column_field(headers: Seq<Seq<char>>, fields: Seq<Seq<char>>, name: Seq<char>) -> Option<
    Seq<char>,
> {
    if has_column(headers, name) {
        let i = choose|i: int| is_first_column(headers, name, i);
        Some(fields[i])
    } else {
        None
    }
}

/// An optional column: absent or empty reads as no value.
pub open spec fn optional_field(headers: Seq<Seq<char>>, fields: Seq<Seq<char>>, name: Seq<char>) -> Option<
    Seq<char>,
> {
    match column_field(headers, fields, name) {
        Some(f) => if f.len() == 0 {
            None
        } else {
            Some(f)
        },
        None => None,
    }
}

/// What reading one line under a header gives: the row, or which error.
pub open spec fn decoded(headers: Seq<Seq<char>>, fields: Seq<Seq<char>>) -> Result<RowView, ()> {
    if headers.len() != fields.len() || !has_column(headers, code_column()) || !has_column(
        headers,
        label_column(),
    ) {
        Err(())
    } else {
        Ok(
            RowView {
                code: column_field(headers, fields, code_column())->Some_0,
                label: column_field(headers, fields, label_column())->Some_0,
                label_en: optional_field(headers, fields, label_en_column()),
                label_de: optional_field(headers, fields, label_de_column()),
            },
        )
    }
}

/// The names of the columns that a row is written under, in order.
pub open spec fn column_names_of(r: RowView) -> Seq<Seq<char>> {
    seq![code_column(), label_column()] + (if r.label_en is Some {
        seq![label_en_column()]
    } else {
        Seq::empty()
    }) + (if r.label_de is Some {
        seq![label_de_column()]
    } else {
        Seq::empty()
    })
}

/// The fields that a row is written as: absent values are left out.
pub open spec fn fields_of(r: RowView) -> Seq<Seq<char>> {
    seq![r.code, r.label] + (match r.label_en {
        Some(s) => seq![s],
        None => Seq::empty(),
    }) + (match r.label_de {
        Some(s) => seq![s],
        None => Seq::empty(),
    })
}

/// The index of the first column named `name`, if any.
fn find_column(headers: &Vec<String>, name: &String) -> (r: Option<usize>)
    ensures
        match r {
            Some(i) => is_first_column(views(headers@), name@, i as int),
            None => !has_column(views(headers@), name@),
        },
{
    let mut i: usize = 0;
    while i < headers.len()
        invariant
            i <= headers@.len(),
            forall|j: int| 0 <= j < i ==> views(headers@)[j] != name@,
        decreases headers@.len() - i,
    {
        if headers[i] == *name {
            return Some(i);
        }
        i = i + 1;
    }
    None
}

pub(crate) fn owned(s: &str) -> (r: String)
    ensures
        r@ == s@,
{
    String::from_str(s)
}

/// The value of an optional column: an empty field is no value.
fn optional(headers: &Vec<String>, fields: &Vec<String>, name: &str) -> (r: Option<String>)
    requires
        headers@.len() == fields@.len(),
    ensures
        opt_view(r) == optional_field(views(headers@), views(fields@), name@),
{
    let n = owned(name);
    match find_column(headers, &n) {
        Some(i) => {
            proof {
                let h = views(headers@);
                assert(is_first_column(h, name@, i as int));
                let k = choose|k: int| is_first_column(h, name@, k);
                assert(k == i as int) by {
                    if k < i as int {
                        assert(h[k] != name@);
                    } else if k > i as int {
                        assert(h[i as int] != name@);
                    }
                }
            }
            if fields[i].unicode_len() == 0 {
                None
            } else {
                Some(fields[i].clone())
            }
        },
        None => None,
    }
}

impl Record {
    /// Reads one line of the table, given the header's column names and the
    /// line's fields. The line must have as many fields as the header has
    /// columns, and the header must name a `code` and a `label` column;
    /// `label_en` and `label_de` are read where present (an empty field is
    /// no value), and any other column is ignored.
    pub fn from_row(headers: &Vec<String>, fields: &Vec<String>) -> (r: Result<Record, DecodeError>)
        ensures
            decoded(views(headers@), views(fields@)) is Ok <==> r is Ok,
            r matches Ok(row) ==> row@ == decoded(views(headers@), views(fields@))->Ok_0,
            headers@.len() != fields@.len() <==> r matches Err(
                DecodeError::FieldCount { expected, found },
            ),
            r matches Err(DecodeError::FieldCount { expected, found }) ==> expected == headers@.len()
                && found == fields@.len(),
            (headers@.len() == fields@.len() && !has_column(views(headers@), code_column())) <==> (
            r matches Err(DecodeError::MissingColumn { name }) && name@ == code_column()),
            (headers@.len() == fields@.len() && has_column(views(headers@), code_column())
                && !has_column(views(headers@), label_column())) <==> (r matches Err(
                DecodeError::MissingColumn { name },
            ) && name@ == label_column()),
    {
        if headers.len() != fields.len() {
            return Err(DecodeError::FieldCount { expected: headers.len(), found: fields.len() });
        }
        let code_name = owned("code");
        let label_name = owned("label");
        proof {
            reveal_strlit("code");
            reveal_strlit("label");
            assert(code_name@.len() != label_name@.len());
        }
        let ci = match find_column(headers, &code_name) {
            Some(i) => i,
            None => {
                return Err(DecodeError::MissingColumn { name: code_name });
            },
        };
        let li = match find_column(headers, &label_name) {
            Some(i) => i,
            None => {
                return Err(DecodeError::MissingColumn { name: label_name });
            },
        };
        let label_en = optional(headers, fields, "label_en");
        let label_de = optional(headers, fields, "label_de");
        let row = Record {
            code: fields[ci].clone(),
            label: fields[li].clone(),
            label_en,
            label_de,
        };
        proof {
            let h = views(headers@);
            assert(is_first_column(h, code_column(), ci as int));
            let k = choose|k: int| is_first_column(h, code_column(), k);
            assert(k == ci as int) by {
                if k < ci as int {
                    assert(h[k] != code_column());
                } else if k > ci as int {
                    assert(h[ci as int] != code_column());
                }
            }
            assert(is_first_column(h, label_column(), li as int));
            let m = choose|k: int| is_first_column(h, label_column(), k);
            assert(m == li as int) by {
                if m < li as int {
                    assert(h[m] != label_column());
                } else if m > li as int {
                    assert(h[li as int] != label_column());
                }
            }
        }
        Ok(row)
    }

    /// The fields this row is written as: code, label, then each
    /// translation that is present.
    pub fn to_fields(&self) -> (r: Vec<String>)
        ensures
            views(r@) == fields_of(self@),
    {
        let mut r: Vec<String> = Vec::new();
        r.push(self.code.clone());
        r.push(self.label.clone());
        match &self.label_en {
            Some(s) => r.push(s.clone()),
            None => {},
        }
        match &self.label_de {
            Some(s) => r.push(s.clone()),
            None => {},
        }
        assert(views(r@) =~= fields_of(self@));
        r
    }

    /// The column names this row is written under, matching `to_fields`.
    pub fn column_names(&self) -> (r: Vec<String>)
        ensures
            views(r@) == column_names_of(self@),
    {
        let mut r: Vec<String> = Vec::new();
        r.push(owned("code"));
        r.push(owned("label"));
        if self.label_en.is_some() {
            r.push(owned("label_en"));
        }
        if self.label_de.is_some() {
            r.push(owned("label_de"));
        }
        assert(views(r@) =~= column_names_of(self@));
        r
    }
}

proof fn lemma_first_column(h: Seq<Seq<char>>, f: Seq<Seq<char>>, name: Seq<char>, i: int)
    requires
        is_first_column(h, name, i),
    ensures
        has_column(h, name),
        column_field(h, f, name) == Some(f[i]),
{
    let k = choose|k: int| is_first_column(h, name, k);
    if k < i {
        assert(h[k] != name);
    } else if k > i {
        assert(h[i] != name);
    }
}

proof fn lemma_no_column(h: Seq<Seq<char>>, f: Seq<Seq<char>>, name: Seq<char>)
    requires
        forall|j: int| 0 <= j < h.len() ==> h[j] != name,
    ensures
        column_field(h, f, name) is None,
{
}

/// Reading back the fields of a row under its own column names gives the
/// row again, as long as no translation is present and empty (an empty
/// field reads as no value).
pub proof fn lemma_fields_read_back(r: RowView)
    requires
        r.label_en != Some(Seq::<char>::empty()),
        r.label_de != Some(Seq::<char>::empty()),
    ensures
        decoded(column_names_of(r), fields_of(r)) == Ok::<RowView, ()>(r),
{
    reveal_strlit("code");
    reveal_strlit("label");
    reveal_strlit("label_en");
    reveal_strlit("label_de");
    let h = column_names_of(r);
    let f = fields_of(r);
    assert(code_column().len() == 4);
    assert(label_column().len() == 5);
    assert(label_en_column().len() == 8);
    assert(label_de_column().len() == 8);
    assert(label_en_column()[6] != label_de_column()[6]);
    assert(h[0] == code_column());
    assert(h[1] == label_column());
    lemma_first_column(h, f, code_column(), 0);
    lemma_first_column(h, f, label_column(), 1);
    match r.label_en {
        Some(e) => {
            assert(h[2] == label_en_column());
            assert(f[2] == e);
            lemma_first_column(h, f, label_en_column(), 2);
            assert(e.len() != 0) by {
                if e.len() == 0 {
                    assert(e =~= Seq::<char>::empty());
                }
            }
            assert(optional_field(h, f, label_en_column()) == r.label_en);
            match r.label_de {
                Some(d) => {
                    assert(h[3] == label_de_column());
                    assert(f[3] == d);
                    assert(d.len() != 0) by {
                        if d.len() == 0 {
                            assert(d =~= Seq::<char>::empty());
                        }
                    }
                    lemma_first_column(h, f, label_de_column(), 3);
                    assert(optional_field(h, f, label_de_column()) == r.label_de);
                },
                None => {
                    lemma_no_column(h, f, label_de_column());
                },
            }
        },
        None => {
            lemma_no_column(h, f, label_en_column());
            match r.label_de {
                Some(d) => {
                    assert(h[2] == label_de_column());
                    assert(f[2] == d);
                    assert(d.len() != 0) by {
                        if d.len() == 0 {
                            assert(d =~= Seq::<char>::empty());
                        }
                    }
                    lemma_first_column(h, f, label_de_column(), 2);
                },
                None => {
                    lemma_no_column(h, f, label_de_column());
                },
            }
        },
    }
}

} // verus!
