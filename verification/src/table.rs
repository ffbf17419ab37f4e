use vstd::prelude::*;
use crate::errors::VtabError;
use crate::params::{
    parse_bool_str, parse_byte_str, spec_parse_bool, spec_parse_byte, spec_split_param,
    split_param,
};
use crate::schema::{escape_cols, gen_names, make_schema, spec_gen_names, spec_make_schema};
use crate::stream::{
    csv_row_fails, csv_rows, new_stream, new_stream_noquote, read_row, stream_fails_at,
    stream_rows,
};
use crate::text::{
    normalize_str, parse_u16_str, spec_escape_dq, spec_normalize, spec_parse_u16, trim_str,
};

verus! {

/// The configuration a construction-argument list denotes.
pub struct ConfigS {
    pub table: Seq<char>,
    pub schema: Option<Seq<char>>,
    pub n_col: Option<u16>,
    pub has_headers: bool,
    pub delimiter: u8,
    pub quote: u8,
}

/// What folding the arguments yields: a configuration, a malformed or
/// unrecognized parameter (with its diagnostic text), or a missing table
/// payload.
pub enum OutcomeS {
    Conf(ConfigS),
    ParamErr(Seq<char>),
    NoTable,
}

/// The diagnostic for an argument without a `=` separator.
pub open spec fn msg_illegal(arg: Seq<char>) -> Seq<char> {
    "illegal argument: '"@ + crate::text::spec_trim(arg) + "'"@
}

/// The diagnostic for an unrecognized option key.
pub open spec fn msg_unknown_key(key: Seq<char>) -> Seq<char> {
    "unrecognized parameter '"@ + key + "'"@
}

pub open spec fn init_config() -> ConfigS {
    ConfigS {
        table: Seq::empty(),
        schema: None,
        n_col: None,
        has_headers: false,
        delimiter: 44u8,  // `,`
        quote: 34u8,  // `"`
    }
}

/// One `key=value` pair applied to the accumulated configuration, with the
/// checks each recognized key makes on its value.
pub open spec fn apply_param(c: ConfigS, key: Seq<char>, value: Seq<char>) -> OutcomeS {
    if key == "table"@ {
        if value.len() == 0 {
            OutcomeS::NoTable
        } else {
            OutcomeS::Conf(ConfigS { table: value, ..c })
        }
    } else if key == "schema"@ {
        OutcomeS::Conf(ConfigS { schema: Some(value), ..c })
    } else if key == "columns"@ {
        match spec_parse_u16(value) {
            Some(n) => {
                if c.n_col is Some {
                    OutcomeS::ParamErr("more than one 'columns' parameter"@)
                } else if n == 0 {
                    OutcomeS::ParamErr("must have at least one column"@)
                } else {
                    OutcomeS::Conf(ConfigS { n_col: Some(n), ..c })
                }
            },
            None => OutcomeS::ParamErr("unrecognized argument to 'columns': "@ + value),
        }
    } else if key == "header"@ {
        match spec_parse_bool(value) {
            Some(b) => OutcomeS::Conf(ConfigS { has_headers: b, ..c }),
            None => OutcomeS::ParamErr("unrecognized argument to 'header': "@ + value),
        }
    } else if key == "delimiter"@ {
        match spec_parse_byte(value) {
            Some(b) => OutcomeS::Conf(ConfigS { delimiter: b, ..c }),
            None => OutcomeS::ParamErr("unrecognized argument to 'delimiter': "@ + value),
        }
    } else if key == "quote"@ {
        match spec_parse_byte(value) {
            Some(b) => {
                if b == 48 {  // the literal digit `0`
                    OutcomeS::Conf(ConfigS { quote: 0, ..c })
                } else {
                    OutcomeS::Conf(ConfigS { quote: b, ..c })
                }
            },
            None => OutcomeS::ParamErr("unrecognized argument to 'quote': "@ + value),
        }
    } else {
        OutcomeS::ParamErr(msg_unknown_key(key))
    }
}

/// The arguments from index `i` on folded into `c`; the first failure wins.
pub open spec fn fold_args(c: ConfigS, args: Seq<Seq<char>>, i: int) -> OutcomeS
    decreases args.len() - i,
{
    if i >= args.len() {
        OutcomeS::Conf(c)
    } else {
        match spec_split_param(args[i]) {
            None => OutcomeS::ParamErr(msg_illegal(args[i])),
            Some(kv) => match apply_param(c, kv.0, kv.1) {
                OutcomeS::Conf(c2) => fold_args(c2, args, i + 1),
                OutcomeS::ParamErr(m) => OutcomeS::ParamErr(m),
                OutcomeS::NoTable => OutcomeS::NoTable,
            },
        }
    }
}

/// The outcome of a full construction-argument list: the first three slots
/// are host-reserved and skipped, and a configuration without a table
/// payload is itself a failure.
pub open spec fn spec_outcome(args: Seq<Seq<char>>) -> OutcomeS {
    match fold_args(init_config(), args, 3) {
        OutcomeS::Conf(c) => {
            if c.table.len() == 0 {
                OutcomeS::NoTable
            } else {
                OutcomeS::Conf(c)
            }
        },
        OutcomeS::ParamErr(m) => OutcomeS::ParamErr(m),
        OutcomeS::NoTable => OutcomeS::NoTable,
    }
}

/// Whether deriving the schema reads a record from the payload.
pub open spec fn needs_read(c: ConfigS) -> bool {
    c.has_headers || (c.n_col is None && c.schema is None)
}

/// The inferred column names, given the first record of the payload (when
/// one was read and present): an explicit count always synthesizes
/// `c0..c{N-1}`; otherwise a header row names the columns (quotes doubled),
/// and a sampled row only fixes their number.
pub open spec fn cols_of(c: ConfigS, first: Option<Seq<Seq<char>>>) -> Seq<Seq<char>> {
    match c.n_col {
        Some(n) => spec_gen_names(n as int),
        None => match first {
            None => Seq::empty(),
            Some(f) => {
                if c.has_headers {
                    f.map_values(|x: Seq<char>| spec_escape_dq(x))
                } else {
                    spec_gen_names(f.len() as int)
                }
            },
        },
    }
}

/// An instance of the virtual table: the payload text and the scan
/// configuration, immutable once connected.
#[derive(Debug)]
pub struct TableInstance {
    pub table: String,
    pub has_headers: bool,
    pub delimiter: u8,
    pub quote: u8,
}

impl TableInstance {
    /// The records of the normalized payload under this configuration.
    pub open spec fn rows(self) -> Seq<Seq<Seq<char>>> {
        csv_rows(spec_normalize(self.table@), self.delimiter, self.quote)
    }

    /// Whether reading record `i` of the normalized payload fails.
    pub open spec fn row_fails(self, i: int) -> bool {
        csv_row_fails(spec_normalize(self.table@), self.delimiter, self.quote, i)
    }

    /// The index of the first data record: the header row, when present and
    /// the payload is non-empty, is skipped.
    pub open spec fn first_data(self) -> int {
        if self.has_headers && self.rows().len() > 0 {
            1
        } else {
            0
        }
    }

    /// Only an unconditional forward full scan is supported: the fixed,
    /// deliberately large cost tells the planner no predicate pushdown is
    /// available.
    pub fn best_index(&self) -> (cost: u64)
        ensures
            cost == 1000000u64,
    {
        1000000u64
    }

    pub open spec fn matches(self, c: ConfigS) -> bool {
        &&& self.table@ == c.table
        &&& self.has_headers == c.has_headers
        &&& self.delimiter == c.delimiter
        &&& self.quote == c.quote
    }
}

/// The exec-side configuration accumulated from the arguments.
pub struct Config {
    pub table: String,
    pub schema: Option<String>,
    pub n_col: Option<u16>,
    pub has_headers: bool,
    pub delimiter: u8,
    pub quote: u8,
}

impl View for Config {
    type V = ConfigS;

    open spec fn view(&self) -> ConfigS {
        ConfigS {
            table: self.table@,
            schema: self.schema.deep_view(),
            n_col: self.n_col,
            has_headers: self.has_headers,
            delimiter: self.delimiter,
            quote: self.quote,
        }
    }
}

/// Derives the schema text and the table instance from a parsed
/// configuration and the first record read from the payload (if the
/// configuration called for a read and the payload had one). Fails exactly
/// when no explicit schema was given and no column can be determined.
pub fn build_table(cfg: Config, first: Option<Vec<String>>) -> (r: Result<
    (String, TableInstance),
    VtabError,
>)
    requires
        cfg.table@.len() > 0,
    ensures
        ({
            let cols = cols_of(cfg@, first.deep_view());
            match r {
                Ok(st) => {
                    &&& st.1.matches(cfg@)
                    &&& st.0@ == (match cfg@.schema {
                        Some(s) => s,
                        None => spec_make_schema(cols),
                    })
                    &&& (cfg@.schema is None ==> cols.len() > 0)
                },
                Err(e) => {
                    &&& e matches VtabError::SchemaError(m) && m@ == "no column specified"@
                    &&& cfg@.schema is None
                    &&& cols.len() == 0
                },
            }
        }),
{
    let mut cols: Vec<String> = Vec::new();
    let mut have_cols = false;
    match cfg.n_col {
        Some(n) => {
            cols = gen_names(n as usize);
            have_cols = true;
        },
        None => {
            match &first {
                Some(f) => {
                    if cfg.has_headers {
                        cols = escape_cols(f);
                    } else {
                        cols = gen_names(f.len());
                    }
                    have_cols = true;
                },
                None => {},
            }
        },
    }
    proof {
        if have_cols {
            assert(cols.deep_view() == cols_of(cfg@, first.deep_view()));
        } else {
            assert(cols.deep_view() =~~= cols_of(cfg@, first.deep_view()));
        }
    }
    let table = TableInstance {
        table: cfg.table,
        has_headers: cfg.has_headers,
        delimiter: cfg.delimiter,
        quote: cfg.quote,
    };
    match cfg.schema {
        Some(s) => Ok((s, table)),
        None => {
            if cols.len() == 0 {
                Err(VtabError::SchemaError(String::from_str("no column specified")))
            } else {
                Ok((make_schema(&cols), table))
            }
        },
    }
}

/// Turns a full construction-argument list into the schema text and the
/// table instance. The first three slots are host-reserved and skipped; the
/// rest are `key=value` options. A malformed or unrecognized option is a
/// `ParameterError` with the diagnostic the fold assigns; a missing or
/// empty `table` payload is an immediate `SchemaError`; a failure of the
/// sampling read of the first record (and nothing else) is a `ParseError`;
/// in every other case success is owed and the result is pinned.
pub fn connect(args: &Vec<String>) -> (r: Result<(String, TableInstance), VtabError>)
    ensures
        ({
            let out = spec_outcome(args.deep_view());
            match out {
                OutcomeS::ParamErr(msg) => r matches Err(e2) && e2
                    matches VtabError::ParameterError(m) && m@ == msg,
                OutcomeS::NoTable => r matches Err(e2) && e2 matches VtabError::SchemaError(m)
                    && m@ == "no table name specified"@,
                OutcomeS::Conf(c) => {
                    let rows = csv_rows(spec_normalize(c.table), c.delimiter, c.quote);
                    let fails0 = csv_row_fails(spec_normalize(c.table), c.delimiter, c.quote, 0);
                    let sampled = if needs_read(c) && rows.len() > 0 {
                        Some(rows[0])
                    } else {
                        None
                    };
                    let cols = cols_of(c, sampled);
                    if needs_read(c) && rows.len() > 0 && fails0 {
                        r matches Err(e2) && e2 matches VtabError::ParseError(_)
                    } else if c.schema is None && cols.len() == 0 {
                        r matches Err(e2) && e2 matches VtabError::SchemaError(m) && m@
                            == "no column specified"@
                    } else {
                        r matches Ok(st) && st.1.matches(c) && st.0@ == (match c.schema {
                            Some(s) => s,
                            None => spec_make_schema(cols),
                        }) && (c.schema is None ==> cols.len() > 0)
                    }
                },
            }
        }),
{
    let mut table = String::new();
    let mut schema: Option<String> = None;
    let mut n_col: Option<u16> = None;
    let mut has_headers = false;
    let mut delimiter: u8 = 44;  // `,`
    let mut quote: u8 = 34;  // `"`
    let n = args.len();
    let mut i: usize = 3;
    proof {
        let cur0 = ConfigS {
            table: table@,
            schema: schema.deep_view(),
            n_col: n_col,
            has_headers: has_headers,
            delimiter: delimiter,
            quote: quote,
        };
        assert(cur0 == init_config());
    }
    while i < n
        invariant
            3 <= i,
            i <= n || i == 3,
            n == args@.len(),
            n_col matches Some(x) ==> x > 0,
            fold_args(init_config(), args.deep_view(), 3) == fold_args(
                ConfigS {
                    table: table@,
                    schema: schema.deep_view(),
                    n_col: n_col,
                    has_headers: has_headers,
                    delimiter: delimiter,
                    quote: quote,
                },
                args.deep_view(),
                i as int,
            ),
        decreases n - i,
    {
        let ghost dv = args.deep_view();
        let ghost cur = ConfigS {
            table: table@,
            schema: schema.deep_view(),
            n_col: n_col,
            has_headers: has_headers,
            delimiter: delimiter,
            quote: quote,
        };
        proof {
            assert(dv[i as int] == args@[i as int]@);
        }
        let kv = split_param(args[i].as_str());
        let (key, value) = match kv {
            Some(p) => p,
            None => {
                proof {
                    assert(fold_args(cur, dv, i as int) == OutcomeS::ParamErr(
                        msg_illegal(dv[i as int]),
                    ));
                }
                let mut m = String::from_str("illegal argument: '");
                m.append(trim_str(args[i].as_str()).as_str());
                m.append("'");
                proof {
                    assert(m@ == msg_illegal(dv[i as int]));
                }
                return Err(VtabError::ParameterError(m));
            },
        };
        let ghost k = key@;
        let ghost v = value@;
        if key == String::from_str("table") {
            if value.unicode_len() == 0 {
                proof {
                    assert(apply_param(cur, k, v) == OutcomeS::NoTable);
                    assert(fold_args(cur, dv, i as int) == OutcomeS::NoTable);
                }
                return Err(VtabError::SchemaError(String::from_str("no table name specified")));
            }
            table = value;
        } else if key == String::from_str("schema") {
            schema = Some(value);
        } else if key == String::from_str("columns") {
            match parse_u16_str(value.as_str()) {
                Some(nn) => {
                    if n_col.is_some() {
                        proof {
                            assert(fold_args(cur, dv, i as int) == OutcomeS::ParamErr(
                                "more than one 'columns' parameter"@,
                            ));
                        }
                        return Err(VtabError::ParameterError(String::from_str(
                            "more than one 'columns' parameter",
                        )));
                    }
                    if nn == 0 {
                        proof {
                            assert(fold_args(cur, dv, i as int) == OutcomeS::ParamErr(
                                "must have at least one column"@,
                            ));
                        }
                        return Err(VtabError::ParameterError(String::from_str(
                            "must have at least one column",
                        )));
                    }
                    n_col = Some(nn);
                },
                None => {
                    proof {
                        assert(fold_args(cur, dv, i as int) == OutcomeS::ParamErr(
                            "unrecognized argument to 'columns': "@ + v,
                        ));
                    }
                    let mut m = String::from_str("unrecognized argument to 'columns': ");
                    m.append(value.as_str());
                    return Err(VtabError::ParameterError(m));
                },
            }
        } else if key == String::from_str("header") {
            match parse_bool_str(value.as_str()) {
                Some(b) => {
                    has_headers = b;
                },
                None => {
                    proof {
                        assert(fold_args(cur, dv, i as int) == OutcomeS::ParamErr(
                            "unrecognized argument to 'header': "@ + v,
                        ));
                    }
                    let mut m = String::from_str("unrecognized argument to 'header': ");
                    m.append(value.as_str());
                    return Err(VtabError::ParameterError(m));
                },
            }
        } else if key == String::from_str("delimiter") {
            match parse_byte_str(value.as_str()) {
                Some(b) => {
                    delimiter = b;
                },
                None => {
                    proof {
                        assert(fold_args(cur, dv, i as int) == OutcomeS::ParamErr(
                            "unrecognized argument to 'delimiter': "@ + v,
                        ));
                    }
                    let mut m = String::from_str("unrecognized argument to 'delimiter': ");
                    m.append(value.as_str());
                    return Err(VtabError::ParameterError(m));
                },
            }
        } else if key == String::from_str("quote") {
            match parse_byte_str(value.as_str()) {
                Some(b) => {
                    if b == 48 {  // the literal digit `0`
                        quote = 0;
                    } else {
                        quote = b;
                    }
                },
                None => {
                    proof {
                        assert(fold_args(cur, dv, i as int) == OutcomeS::ParamErr(
                            "unrecognized argument to 'quote': "@ + v,
                        ));
                    }
                    let mut m = String::from_str("unrecognized argument to 'quote': ");
                    m.append(value.as_str());
                    return Err(VtabError::ParameterError(m));
                },
            }
        } else {
            proof {
                assert(apply_param(cur, k, v) == OutcomeS::ParamErr(msg_unknown_key(k)));
                assert(fold_args(cur, dv, i as int) == OutcomeS::ParamErr(msg_unknown_key(k)));
            }
            let mut m = String::from_str("unrecognized parameter '");
            m.append(key.as_str());
            m.append("'");
            proof {
                assert(m@ == msg_unknown_key(k));
            }
            return Err(VtabError::ParameterError(m));
        }
        i = i + 1;
        proof {
            let cur2 = ConfigS {
                table: table@,
                schema: schema.deep_view(),
                n_col: n_col,
                has_headers: has_headers,
                delimiter: delimiter,
                quote: quote,
            };
            assert(spec_split_param(dv[i - 1]) == Some((k, v)));
            assert(apply_param(cur, k, v) == OutcomeS::Conf(cur2));
            assert(fold_args(cur, dv, i - 1) == fold_args(cur2, dv, i as int));
        }
    }
    let ghost dv = args.deep_view();
    let ghost cur = ConfigS {
        table: table@,
        schema: schema.deep_view(),
        n_col: n_col,
        has_headers: has_headers,
        delimiter: delimiter,
        quote: quote,
    };
    proof {
        assert(dv.len() == n);
        assert(fold_args(cur, dv, i as int) == OutcomeS::Conf(cur));
    }
    if table.unicode_len() == 0 {
        return Err(VtabError::SchemaError(String::from_str("no table name specified")));
    }
    let cfg = Config { table, schema, n_col, has_headers, delimiter, quote };
    proof {
        assert(cfg@ == cur);
        assert(spec_outcome(dv) == OutcomeS::Conf(cur));
    }
    let needs = cfg.has_headers || (cfg.n_col.is_none() && cfg.schema.is_none());
    proof {
        assert(needs == needs_read(cur));
    }
    let mut first: Option<Vec<String>> = None;
    if needs {
        let normalized = normalize_str(cfg.table.as_str());
        let mut s = if cfg.quote == 0 {
            new_stream_noquote(normalized.as_str(), cfg.delimiter)
        } else {
            new_stream(normalized.as_str(), cfg.delimiter, cfg.quote)
        };
        let ghost rows = csv_rows(spec_normalize(cur.table), cur.delimiter, cur.quote);
        let ghost fails0 = csv_row_fails(spec_normalize(cur.table), cur.delimiter, cur.quote, 0);
        proof {
            assert(stream_rows(s) == rows);
            assert(stream_fails_at(s, 0) == fails0);
        }
        match read_row(&mut s) {
            Ok(opt) => {
                proof {
                    match &opt {
                        Some(rec) => {
                            assert(rows.len() > 0);
                            assert(rec.deep_view() == rows[0]);
                        },
                        None => {
                            assert(rows.len() == 0);
                        },
                    }
                }
                first = opt;
            },
            Err(m) => {
                return Err(VtabError::ParseError(m));
            },
        }
    }
    proof {
        let rows = csv_rows(spec_normalize(cur.table), cur.delimiter, cur.quote);
        let sampled = if needs_read(cur) && rows.len() > 0 {
            Some(rows[0])
        } else {
            None
        };
        assert(first.deep_view() == sampled);
        if cur.schema is None && cur.n_col is Some {
            assert(cols_of(cur, sampled).len() > 0);
        }
    }
    build_table(cfg, first)
}

} // verus!
