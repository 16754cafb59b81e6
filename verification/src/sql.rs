//! Emission of the SQL import script: a DROP TABLE statement, a CREATE
//! TABLE statement with a surrogate key and one declared column per
//! header/type pair, and an INSERT with one parenthesized VALUES row per
//! body row. Pure string templating over the reformed file.

use vstd::prelude::*;

use crate::column::spec_type_vector;
use crate::column::sql_type_name;
use crate::column::sql_type_name_string;
use crate::column::ColumnType;
use crate::input::sep_char;
use crate::input::InputFile;
use crate::input::InputFileView;
use crate::reform::zip_len;
use crate::text::concat_all;
use crate::text::lemma_concat_all_push;
use crate::text::split_cells;
use crate::text::split_on;

verus! {

/// The column declarations of the CREATE TABLE statement: each header
/// cell (the header is cut at commas, as it stands after reforming)
/// paired with its SQL type name, one declaration per line, each ending
/// in a comma. A surplus of cells or of types is dropped by the zip.
pub open spec fn column_decls(cols: Seq<Seq<char>>, types: Seq<ColumnType>) -> Seq<char> {
    concat_all(
        Seq::new(
            zip_len(cols, types),
            |i: int| cols[i] + " "@ + sql_type_name(types[i]) + ",\n"@,
        ),
    )
}

/// The VALUES rows: every body row in parentheses, separated by a comma
/// and a newline, with nothing after the last row.
pub open spec fn values_block(body: Seq<Seq<char>>) -> Seq<char> {
    concat_all(
        Seq::new(
            body.len(),
            |i: int|
                if i == body.len() - 1 {
                    "("@ + body[i] + ")"@
                } else {
                    "("@ + body[i] + "),\n"@
                },
        ),
    )
}

/// The whole SQL import script for a file and a table name.
pub open spec fn sql_script_text(v: InputFileView, table: Seq<char>) -> Seq<char> {
    "DROP TABLE IF EXISTS "@ + table + ";\n"@ + "CREATE TABLE "@ + table + "(\n"@
        + "id INT NOT NULL AUTO_INCREMENT, \n"@ + column_decls(
        split_on(v.header, ','),
        spec_type_vector(v.first_row, sep_char(v.filetype)),
    ) + "PRIMARY KEY ( id ));\n\n"@ + "INSERT INTO "@ + table + "\n("@ + v.header + ")\nVALUES\n"@
        + values_block(v.body) + ";"@
}

/// Renders the SQL import script for `input` under the table name
/// `table_name`.
pub fn sql_script(input: &InputFile, table_name: &str) -> (r: String)
    ensures
        r@ == sql_script_text(input@, table_name@),
{
    let mut out = String::new();
    out.append("DROP TABLE IF EXISTS ");
    out.append(table_name);
    out.append(";\n");
    out.append("CREATE TABLE ");
    out.append(table_name);
    out.append("(\n");
    out.append("id INT NOT NULL AUTO_INCREMENT, \n");

    let cols = split_cells(input.header().as_str(), ',');
    let types = input.type_vector();
    let n = if cols.len() <= types.len() {
        cols.len()
    } else {
        types.len()
    };
    let ghost decls = Seq::new(
        zip_len(split_on(input@.header, ','), types@),
        |i: int| split_on(input@.header, ',')[i] + " "@ + sql_type_name(types@[i]) + ",\n"@,
    );
    let ghost base = out@;
    let mut j: usize = 0;
    proof {
        assert(decls.subrange(0, 0) =~= Seq::<Seq<char>>::empty());
        assert(concat_all(Seq::<Seq<char>>::empty()) == Seq::<char>::empty());
        assert(out@ =~= base + concat_all(decls.subrange(0, 0)));
    }
    while j < n
        invariant
            n == zip_len(split_on(input@.header, ','), types@),
            n <= cols.len(),
            n <= types.len(),
            cols@.len() == split_on(input@.header, ',').len(),
            forall|k: int| 0 <= k < cols@.len() ==> cols@[k]@ == split_on(input@.header, ',')[k],
            types@ == spec_type_vector(input@.first_row, sep_char(input@.filetype)),
            decls == Seq::new(
                zip_len(split_on(input@.header, ','), types@),
                |i: int| split_on(input@.header, ',')[i] + " "@ + sql_type_name(types@[i])
                    + ",\n"@,
            ),
            j <= n,
            out@ == base + concat_all(decls.subrange(0, j as int)),
        decreases n - j,
    {
        proof {
            lemma_concat_all_push(decls.subrange(0, j as int), decls[j as int]);
            assert(decls.subrange(0, j + 1 as int) =~= decls.subrange(0, j as int).push(
                decls[j as int],
            ));
        }
        out.append(cols[j].as_str());
        out.append(" ");
        let name = sql_type_name_string(types[j]);
        out.append(name.as_str());
        out.append(",\n");
        j = j + 1;
        proof {
            assert(out@ =~= base + concat_all(decls.subrange(0, j as int)));
        }
    }
    proof {
        assert(decls.subrange(0, n as int) =~= decls);
        assert(out@ == base + column_decls(
            split_on(input@.header, ','),
            spec_type_vector(input@.first_row, sep_char(input@.filetype)),
        ));
    }

    out.append("PRIMARY KEY ( id ));\n\n");
    out.append("INSERT INTO ");
    out.append(table_name);
    out.append("\n(");
    out.append(input.header().as_str());
    out.append(")\nVALUES\n");

    let rows = input.body();
    let m = rows.len();
    let ghost vals = Seq::new(
        input@.body.len(),
        |i: int|
            if i == input@.body.len() - 1 {
                "("@ + input@.body[i] + ")"@
            } else {
                "("@ + input@.body[i] + "),\n"@
            },
    );
    let ghost base2 = out@;
    let mut x: usize = 0;
    proof {
        assert(vals.subrange(0, 0) =~= Seq::<Seq<char>>::empty());
        assert(concat_all(Seq::<Seq<char>>::empty()) == Seq::<char>::empty());
        assert(out@ =~= base2 + concat_all(vals.subrange(0, 0)));
    }
    while x < m
        invariant
            m == input@.body.len(),
            rows@.len() == m,
            forall|k: int| 0 <= k < m ==> rows@[k]@ == input@.body[k],
            vals == Seq::new(
                input@.body.len(),
                |i: int|
                    if i == input@.body.len() - 1 {
                        "("@ + input@.body[i] + ")"@
                    } else {
                        "("@ + input@.body[i] + "),\n"@
                    },
            ),
            x <= m,
            out@ == base2 + concat_all(vals.subrange(0, x as int)),
        decreases m - x,
    {
        proof {
            lemma_concat_all_push(vals.subrange(0, x as int), vals[x as int]);
            assert(vals.subrange(0, x + 1 as int) =~= vals.subrange(0, x as int).push(
                vals[x as int],
            ));
        }
        out.append("(");
        out.append(rows[x].as_str());
        if x + 1 == m {
            out.append(")");
        } else {
            out.append("),\n");
        }
        x = x + 1;
        proof {
            assert(out@ =~= base2 + concat_all(vals.subrange(0, x as int)));
        }
    }
    proof {
        assert(vals.subrange(0, m as int) =~= vals);
    }
    out.append(";");
    proof {
        assert(out@ =~= sql_script_text(input@, table_name@));
    }
    out
}

} // verus!
