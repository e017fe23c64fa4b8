//! The substitution driver and the directive evaluator.  The driver finds
//! the first token of the text, evaluates it, splices the value in place of
//! the token, and repeats until no token remains.  Directives with freeform
//! parameters (the banner message, the per-file loop body) re-enter the
//! driver on their text, under an explicit recursion-depth bound; past the
//! bound the directive fails closed with the error sentinel.  The driver's
//! own loop runs under a generous pass bound, and past it the driver too
//! fails closed, so a substitution that reproduces its own token cannot run
//! forever and never leaks an unresolved token into the result
//! (`lemma_driver_leaves_no_token`).  An unresolved or malformed token
//! becomes the literal `ERR` and the rest of the text is still produced.

use vstd::prelude::*;

use crate::config::assoc_lookup;
use crate::config::Config;
use crate::config::ConfigView;
use crate::environment::date_value_spec;
use crate::environment::date_text;
use crate::environment::time_value_spec;
use crate::environment::time_text;
use crate::environment::Environment;
use crate::environment::EnvironmentView;
use crate::config::lookup_value;
use crate::file_context::expand_spec;
use crate::file_context::name_with_extension_spec;
use crate::file_context::FileContext;
use crate::file_context::FileContextView;
use crate::file_context::FileEnumeration;
use crate::file_harvester::harvest_files_from_dir;
use crate::file_harvester::harvest_files_from_dir_as_string;
use crate::file_harvester::harvest_select_spec;
use crate::file_harvester::harvest_string_spec;
use crate::file_harvester::harvested_files_spec;
use crate::file_harvester::opt_or_empty;
use crate::file_harvester::HarvestedFile;
use crate::file_harvester::HarvestedFileView;
use crate::formatter::apply_ops_spec;
use crate::formatter::apply_ops_with_default_spec;
use crate::formatter::format_append_and_remove;
use crate::formatter::format_append_and_remove_but_ensure_formatted_to_type;
use crate::formatter::pascal_spec;
use crate::formatter::string_in_pascal_case;
use crate::parser::find_first_token_spec;
use crate::parser::lemma_scan_bounds;
use crate::parser::lemma_scan_no_close;
use crate::parser::lemma_scan_no_open;
use crate::parser::scan_init;
use crate::parser::Parser;
use crate::template_file_list::TemplateFile;
use crate::text::append_repeated;
use crate::text::lemma_repeat_add;
use crate::text::push_char;
use crate::text::repeat_spec;
use crate::text::trim;
use crate::text::trim_spec;
use crate::token::token_from_string_spec;
use crate::token::token_variable_string_spec;
use crate::token::Token;
use crate::token::TokenView;
use crate::util::replace_if_not_none;

verus! {

broadcast use vstd::string::group_string_axioms;

/// How many nested re-entries into the driver a pass may make before a
/// directive with freeform parameters fails closed.
pub const SUBSTITUTION_DEPTH: u32 = 32;

/// How many token substitutions one driver call may perform before it
/// fails closed with the error sentinel.
pub const SUBSTITUTION_FUEL: u32 = 4096;

/// The view of an optional parent context.
pub open spec fn opt_ctx_view(parent: Option<&FileContext>) -> Option<FileContextView> {
    match parent {
        Some(c) => Some(c@),
        None => None,
    }
}

/// The items of the token's indexed parameter group; empty when absent.
pub open spec fn group_items_at(t: TokenView, i: int) -> Seq<Seq<char>> {
    match t.variables {
        None => Seq::empty(),
        Some(vs) => if 0 <= i < vs.len() {
            vs[i]
        } else {
            Seq::empty()
        },
    }
}

/// How many parameter groups the token carries.
pub open spec fn groups_count(t: TokenView) -> int {
    match t.variables {
        None => 0,
        Some(vs) => vs.len() as int,
    }
}

/// Every item trimmed of surrounding white space.
pub open spec fn trim_all_spec(items: Seq<Seq<char>>) -> Seq<Seq<char>> {
    items.map_values(|p: Seq<char>| trim_spec(p))
}

/// The context a harvested file is evaluated under: its own name, extension
/// and path, with no enumerations.
pub open spec fn derived_context_spec(f: HarvestedFileView) -> FileContextView {
    FileContextView {
        name: opt_or_empty(f.file_name),
        extension: opt_or_empty(f.extension),
        path: opt_or_empty(f.path),
        language: None,
        platform: None,
        user_defined: None,
    }
}

/// The banner box: a line of the symbol as wide as the message plus four,
/// the message between single symbols and spaces, and the top line again.
pub open spec fn banner_text_spec(sym: Seq<char>, msg: Seq<char>) -> Seq<char> {
    repeat_spec(sym, (msg.len() + 4) as nat) + seq!['\n'] + sym + seq![' '] + msg + seq![' '] + sym
        + seq!['\n'] + repeat_spec(sym, (msg.len() + 4) as nat) + seq!['\n']
}

/// The pipeline applied to a base name, `pascal` prepended to the token's
/// first parameter group; nothing without parameters or on a pipeline abort.
pub open spec fn file_name_as_type_args_spec(name: Seq<char>, t: TokenView) -> Option<Seq<char>> {
    if t.variables is None {
        None
    } else {
        apply_ops_with_default_spec(name, group_items_at(t, 0), "pascal"@)
    }
}

/// The pipeline applied to a base name, the extension appended after a dot;
/// nothing without parameters or on a pipeline abort.
pub open spec fn file_name_args_spec(name: Seq<char>, t: TokenView, ext: Seq<char>) -> Option<
    Seq<char>,
> {
    if t.variables is None {
        None
    } else {
        match apply_ops_spec(name, group_items_at(t, 0)) {
            Some(v) => Some(v + seq!['.'] + ext),
            None => None,
        }
    }
}

/// The pipeline applied to a base name; nothing without parameters or on a
/// pipeline abort.
pub open spec fn file_name_without_extension_args_spec(name: Seq<char>, t: TokenView) -> Option<
    Seq<char>,
> {
    if t.variables is None {
        None
    } else {
        apply_ops_spec(name, group_items_at(t, 0))
    }
}

/// The value of one parsed token's directive.  Every case is a function of
/// the token, the context, the configuration and the environment; the two
/// re-entrant directives consult the driver at one depth less.
pub open spec fn eval_value_spec(
    t: TokenView,
    ctx: FileContextView,
    cfg: ConfigView,
    env: EnvironmentView,
    depth: nat,
) -> Seq<char>
    decreases depth, 0nat, 1nat, 1nat, 0nat,
{
    if t.variables is Some {
        eval_args_spec(t, ctx, cfg, env, depth)
    } else {
        eval_plain_spec(t, ctx, cfg, env)
    }
}

/// The value of a directive that carries parameter groups.
pub open spec fn eval_args_spec(
    t: TokenView,
    ctx: FileContextView,
    cfg: ConfigView,
    env: EnvironmentView,
    depth: nat,
) -> Seq<char>
    decreases depth, 0nat, 1nat, 0nat, 0nat,
{
    {
        if t.id == "CURRENT_DATE"@ {
            date_value_spec(
                env.now_year,
                env.now_month,
                env.now_day,
                token_variable_string_spec(t, 0),
            )
        } else if t.id == "CURRENT_TIME"@ {
            time_value_spec(
                env.now_hour,
                env.now_minute,
                env.now_second,
                token_variable_string_spec(t, 0),
            )
        } else if t.id == "PARENT_DIR"@ {
            "UNIMPLEMENTED"@
        } else if t.id == "EACH_FILE_IN_DIR"@ {
            match env.harvest_entries {
                None => Seq::empty(),
                Some(es) => harvest_string_spec(
                    harvested_files_spec(harvest_select_spec(es, group_items_at(t, 0))),
                    env.harvest_explicit,
                ),
            }
        } else if t.id == "FOR_EACH_FILE_IN_DIR"@ {
            if groups_count(t) < 2 || depth == 0 {
                "ERR"@
            } else {
                match env.harvest_entries {
                    None => Seq::empty(),
                    Some(es) => for_each_spec(
                        harvested_files_spec(
                            harvest_select_spec(es, trim_all_spec(group_items_at(t, 0))),
                        ),
                        token_variable_string_spec(t, 1),
                        ctx,
                        cfg,
                        env,
                        depth,
                    ),
                }
            }
        } else if t.id == "REPEAT_X_TIMES"@ {
            "UNIMPLEMENTED"@
        } else if t.id == "USER_VAR"@ {
            match assoc_lookup(cfg.user_variables, token_variable_string_spec(t, 0)) {
                Some(v) => v,
                None => "ERR"@,
            }
        } else if t.id == "FILE_NAME_AS_TYPE"@ {
            match file_name_as_type_args_spec(expand_spec(ctx), t) {
                Some(v) => v,
                None => "ERR"@,
            }
        } else if t.id == "IMPORT"@ {
            match assoc_lookup(env.imports, token_variable_string_spec(t, 0)) {
                Some(content) => content,
                None => "ERR"@,
            }
        } else if t.id == "RELATIVE_IMPORT"@ {
            "UNIMPLEMENTED"@
        } else if t.id == "BANNER"@ {
            if groups_count(t) < 2 || depth == 0 {
                "ERR"@
            } else {
                banner_text_spec(
                    token_variable_string_spec(t, 0),
                    drive_spec(
                        token_variable_string_spec(t, 1),
                        ctx,
                        None,
                        cfg,
                        env,
                        (depth - 1) as nat,
                        SUBSTITUTION_FUEL as nat,
                    ),
                )
            }
        } else if t.id == "FILE_NAME"@ {
            match file_name_args_spec(expand_spec(ctx), t, ctx.extension) {
                Some(v) => v,
                None => "ERR"@,
            }
        } else if t.id == "FILE_NAME_WITHOUT_EXTENSION"@ {
            match file_name_without_extension_args_spec(ctx.name, t) {
                Some(v) => v,
                None => "ERR"@,
            }
        } else if t.id == "HARVEST_SUBDIR"@ || t.id == "HARVEST_EACH_SUBDIR"@ || t.id
            == "DEFINE_TEMPLATE_VAR"@ || t.id == "TEMPLATE_VAR"@ {
            "UNIMPLEMENTED"@
        } else {
            "ERR"@
        }
    }
}

/// The value of a directive without parameter groups.
pub open spec fn eval_plain_spec(
    t: TokenView,
    ctx: FileContextView,
    cfg: ConfigView,
    env: EnvironmentView,
) -> Seq<char> {
    {
        if t.id == "FILE_NAME"@ {
            name_with_extension_spec(ctx)
        } else if t.id == "FILE_NAME_AS_TYPE"@ {
            pascal_spec(expand_spec(ctx))
        } else if t.id == "FILE_NAME_WITHOUT_EXTENSION"@ {
            ctx.name
        } else if t.id == "PARTNER_FILE"@ {
            if ctx.extension.len() == 0 {
                "ERR"@
            } else {
                match assoc_lookup(cfg.partner_file_map, ctx.extension) {
                    Some(partner) => ctx.name + seq!['.'] + partner,
                    None => "ERR"@,
                }
            }
        } else if t.id == "EXTENSION"@ {
            ctx.extension
        } else if t.id == "DIR"@ {
            opt_or_empty(env.current_dir_name)
        } else if t.id == "DIR_AS_TYPE"@ {
            pascal_spec(opt_or_empty(env.current_dir_name))
        } else if t.id == "PWD"@ {
            opt_or_empty(env.current_path)
        } else if t.id == "PATH"@ {
            "."@
        } else if t.id == "CURRENT_DATE"@ {
            date_value_spec(env.now_year, env.now_month, env.now_day, "%m-%d-%Y"@)
        } else if t.id == "CURRENT_TIME"@ {
            time_value_spec(env.now_hour, env.now_minute, env.now_second, "%H:%M"@)
        } else if t.id == "PLATFORM"@ {
            match ctx.platform {
                Some(platform) => platform,
                None => "ERR"@,
            }
        } else if t.id == "LANGUAGE"@ {
            match ctx.language {
                Some(language) => language,
                None => "ERR"@,
            }
        } else if t.id == "ENUMERATION"@ {
            match ctx.user_defined {
                Some(user_defined) => user_defined,
                None => "ERR"@,
            }
        } else if t.id == "USER"@ {
            env.user
        } else if t.id == "OS"@ {
            env.os
        } else if t.id == "DEVICE_NAME"@ {
            env.device_name
        } else if t.id == "VERSION"@ {
            env.version
        } else {
            "ERR"@
        }
    }
}

/// The value a token text evaluates to.  A text that does not parse becomes
/// the error sentinel; under a parent context the two harvest-loop tokens
/// read the parent instead of the file's own context.
pub open spec fn eval_token_spec(
    token_text: Seq<char>,
    ctx: FileContextView,
    parent: Option<FileContextView>,
    cfg: ConfigView,
    env: EnvironmentView,
    depth: nat,
) -> Seq<char>
    decreases depth, 0nat, 2nat, 0nat, 0nat,
{
    match token_from_string_spec(token_text) {
        None => "ERR"@,
        Some(t) => match parent {
            Some(pc) => if t.id == "IGNORE_HARVEST_FILE_NAME"@ {
                pc.name
            } else if t.id == "IGNORE_HARVEST_FILE_PATH"@ {
                "Err"@
            } else {
                eval_value_spec(t, ctx, cfg, env, depth)
            },
            None => eval_value_spec(t, ctx, cfg, env, depth),
        },
    }
}

/// The per-file loop: each harvested file's derived context drives the body
/// once, at one depth less, the outer context standing as parent; a line
/// separator follows each file's text.
pub open spec fn for_each_spec(
    files: Seq<HarvestedFileView>,
    body: Seq<char>,
    outer: FileContextView,
    cfg: ConfigView,
    env: EnvironmentView,
    depth: nat,
) -> Seq<char>
    decreases depth, 0nat, 0nat, 0nat, files.len(),
{
    if depth == 0 || files.len() == 0 {
        Seq::empty()
    } else {
        drive_spec(
            body,
            derived_context_spec(files[0]),
            Some(outer),
            cfg,
            env,
            (depth - 1) as nat,
            SUBSTITUTION_FUEL as nat,
        ) + seq!['\n'] + for_each_spec(files.drop_first(), body, outer, cfg, env, depth)
    }
}

/// The driver: while fuel remains and a token is found, the token's span is
/// replaced by its value and the scan restarts on the spliced text.  Text
/// without a token is returned as it stands; a driver whose pass budget is
/// exhausted while a token still remains fails closed with the error
/// sentinel, so the result never re-emits an unresolved token.
pub open spec fn drive_spec(
    text: Seq<char>,
    ctx: FileContextView,
    parent: Option<FileContextView>,
    cfg: ConfigView,
    env: EnvironmentView,
    depth: nat,
    fuel: nat,
) -> Seq<char>
    decreases depth, fuel, 3nat, 0nat, 0nat,
{
    if fuel == 0 {
        match find_first_token_spec(text) {
            None => text,
            Some(_) => "ERR"@,
        }
    } else {
        match find_first_token_spec(text) {
            None => text,
            Some((a, b)) => if 0 <= a && a < b && b <= text.len() {
                drive_spec(
                    text.subrange(0, a) + eval_token_spec(
                        text.subrange(a, b),
                        ctx,
                        parent,
                        cfg,
                        env,
                        depth,
                    ) + text.subrange(b, text.len() as int),
                    ctx,
                    parent,
                    cfg,
                    env,
                    depth,
                    (fuel - 1) as nat,
                )
            } else {
                text
            },
        }
    }
}

/// Replaces every token of a template's text against the given context.
pub fn replace_symbols(
    unprocessed_file: &TemplateFile,
    file_context: &FileContext,
    config: &Config,
    environment: &Environment,
) -> (r: String)
    ensures
        r@ == drive_spec(
            unprocessed_file@.data,
            file_context@,
            None,
            config@,
            environment@,
            SUBSTITUTION_DEPTH as nat,
            SUBSTITUTION_FUEL as nat,
        ),
{
    replace_sub_symbols(&unprocessed_file.template_file_data, file_context, config, environment)
}

/// Replaces every token of the given text against the given context.
pub fn replace_sub_symbols(
    data_to_replace: &String,
    file_context: &FileContext,
    config: &Config,
    environment: &Environment,
) -> (r: String)
    ensures
        r@ == drive_spec(
            data_to_replace@,
            file_context@,
            None,
            config@,
            environment@,
            SUBSTITUTION_DEPTH as nat,
            SUBSTITUTION_FUEL as nat,
        ),
{
    replace_sub_symbols_at(
        data_to_replace.as_str(),
        file_context,
        None,
        config,
        environment,
        SUBSTITUTION_DEPTH,
        SUBSTITUTION_FUEL,
    )
}

/// Evaluates one token text against the given context.
pub fn create_replacement_value(
    token_text: &str,
    file_context: &FileContext,
    config: &Config,
    environment: &Environment,
) -> (r: String)
    ensures
        r@ == eval_token_spec(
            token_text@,
            file_context@,
            None,
            config@,
            environment@,
            SUBSTITUTION_DEPTH as nat,
        ),
{
    create_replacement_value_at(
        token_text,
        file_context,
        None,
        config,
        environment,
        SUBSTITUTION_DEPTH,
    )
}

/// Evaluates one token text under a parent context, as the per-file loop
/// does for its body: the harvest-ignore tokens read the parent.
pub fn create_replacement_value_with_parent_context(
    token_text: &str,
    file_context: &FileContext,
    parent_context: &FileContext,
    config: &Config,
    environment: &Environment,
) -> (r: String)
    ensures
        r@ == eval_token_spec(
            token_text@,
            file_context@,
            Some(parent_context@),
            config@,
            environment@,
            SUBSTITUTION_DEPTH as nat,
        ),
{
    create_replacement_value_at(
        token_text,
        file_context,
        Some(parent_context),
        config,
        environment,
        SUBSTITUTION_DEPTH,
    )
}

/// The driver at a given depth and fuel.
fn replace_sub_symbols_at(
    data: &str,
    file_context: &FileContext,
    parent: Option<&FileContext>,
    config: &Config,
    environment: &Environment,
    depth: u32,
    fuel: u32,
) -> (r: String)
    ensures
        r@ == drive_spec(
            data@,
            file_context@,
            opt_ctx_view(parent),
            config@,
            environment@,
            depth as nat,
            fuel as nat,
        ),
    decreases depth, fuel, 3int, 0int, 0int,
{
    if fuel == 0 {
        return match Parser::find_first_token(data) {
            None => String::from_str(data),
            Some(_) => String::from_str("ERR"),
        };
    }
    match Parser::find_first_token(data) {
        None => String::from_str(data),
        Some(found_token) => {
            let n = data.unicode_len();
            let template_start = data.substring_char(0, found_token.start);
            let template_end = data.substring_char(found_token.end, n);
            let token_text = data.substring_char(found_token.start, found_token.end);
            let replacement_symbol = create_replacement_value_at(
                token_text,
                file_context,
                parent,
                config,
                environment,
                depth,
            );
            let processed_template = String::from_str(template_start).concat(
                replacement_symbol.as_str(),
            ).concat(template_end);
            replace_sub_symbols_at(
                processed_template.as_str(),
                file_context,
                parent,
                config,
                environment,
                depth,
                fuel - 1,
            )
        },
    }
}

/// One token's value at a given depth.
fn create_replacement_value_at(
    token_text: &str,
    file_context: &FileContext,
    parent: Option<&FileContext>,
    config: &Config,
    environment: &Environment,
    depth: u32,
) -> (r: String)
    ensures
        r@ == eval_token_spec(
            token_text@,
            file_context@,
            opt_ctx_view(parent),
            config@,
            environment@,
            depth as nat,
        ),
    decreases depth, 0int, 2int, 0int, 0int,
{
    let token = match Token::from_string(token_text) {
        Ok(t) => t,
        Err(_) => {
            return String::from_str("ERR");
        },
    };
    if let Some(parent_context) = parent {
        if token.id == String::from_str("IGNORE_HARVEST_FILE_NAME") {
            return parent_context.name.clone();
        }
        if token.id == String::from_str("IGNORE_HARVEST_FILE_PATH") {
            return String::from_str("Err");
        }
    }
    evaluate_directive(&token, file_context, config, environment, depth)
}

/// The directive dispatch on a parsed token.
fn evaluate_directive(
    token: &Token,
    file_context: &FileContext,
    config: &Config,
    environment: &Environment,
    depth: u32,
) -> (r: String)
    ensures
        r@ == eval_value_spec(token@, file_context@, config@, environment@, depth as nat),
    decreases depth, 0int, 1int, 1int, 0int,
{
    if token.has_variables() {
        evaluate_args_directive(token, file_context, config, environment, depth)
    } else {
        evaluate_plain_directive(token, file_context, config, environment)
    }
}

/// The dispatch over the directives that carry parameter groups.
fn evaluate_args_directive(
    token: &Token,
    file_context: &FileContext,
    config: &Config,
    environment: &Environment,
    depth: u32,
) -> (r: String)
    ensures
        r@ == eval_args_spec(token@, file_context@, config@, environment@, depth as nat),
    decreases depth, 0int, 1int, 0int, 0int,
{
    {
        if token.id == String::from_str("CURRENT_DATE") {
            let fmt = token.get_variable_as_string(0);
            date_text(
                environment.now.year,
                environment.now.month,
                environment.now.day,
                fmt.as_str(),
            )
        } else if token.id == String::from_str("CURRENT_TIME") {
            let fmt = token.get_variable_as_string(0);
            time_text(
                environment.now.hour,
                environment.now.minute,
                environment.now.second,
                fmt.as_str(),
            )
        } else if token.id == String::from_str("PARENT_DIR") {
            String::from_str("UNIMPLEMENTED")
        } else if token.id == String::from_str("EACH_FILE_IN_DIR") {
            match &environment.harvest_entries {
                None => String::new(),
                Some(entries) => {
                    let included = token.get_variable_at(0);
                    harvest_files_from_dir_as_string(
                        entries,
                        &included,
                        environment.harvest_explicit,
                    )
                },
            }
        } else if token.id == String::from_str("FOR_EACH_FILE_IN_DIR") {
            let groups = match &token.variables {
                Some(v) => v.len(),
                None => 0,
            };
            if groups < 2 || depth == 0 {
                return String::from_str("ERR");
            }
            let raw_items = token.get_variable_at(0);
            let include_list = trim_all(&raw_items);
            let user_line = token.get_variable_as_string(1);
            match &environment.harvest_entries {
                None => String::new(),
                Some(entries) => {
                    let harvested_files = harvest_files_from_dir(entries, &include_list);
                    proof {
                        assert(harvested_files.deep_view().skip(0) =~= harvested_files.deep_view());
                    }
                    for_each_files(
                        &harvested_files,
                        0,
                        user_line.as_str(),
                        file_context,
                        config,
                        environment,
                        depth,
                    )
                },
            }
        } else if token.id == String::from_str("REPEAT_X_TIMES") {
            String::from_str("UNIMPLEMENTED")
        } else if token.id == String::from_str("USER_VAR") {
            let name = token.get_variable_as_string(0);
            match lookup_value(&config.user_variables, name.as_str()) {
                Some(value) => value,
                None => String::from_str("ERR"),
            }
        } else if token.id == String::from_str("FILE_NAME_AS_TYPE") {
            let expanded = file_context.expand_with_enumerations();
            match file_name_as_type_with_args(expanded.as_str(), token) {
                Some(value) => value,
                None => String::from_str("ERR"),
            }
        } else if token.id == String::from_str("IMPORT") {
            let name = token.get_variable_as_string(0);
            match lookup_value(&environment.imports, name.as_str()) {
                Some(content) => content,
                None => String::from_str("ERR"),
            }
        } else if token.id == String::from_str("RELATIVE_IMPORT") {
            String::from_str("UNIMPLEMENTED")
        } else if token.id == String::from_str("BANNER") {
            let groups = match &token.variables {
                Some(v) => v.len(),
                None => 0,
            };
            if groups < 2 || depth == 0 {
                return String::from_str("ERR");
            }
            let banner_symbol = token.get_variable_as_string(0);
            let banner_message = token.get_variable_as_string(1);
            create_banner(
                banner_symbol.as_str(),
                banner_message.as_str(),
                file_context,
                config,
                environment,
                depth,
            )
        } else if token.id == String::from_str("FILE_NAME") {
            let expanded = file_context.expand_with_enumerations();
            match file_name_with_args(expanded.as_str(), token, file_context.extension.as_str()) {
                Some(value) => value,
                None => String::from_str("ERR"),
            }
        } else if token.id == String::from_str("FILE_NAME_WITHOUT_EXTENSION") {
            match file_name_without_extension_with_args(file_context.name.as_str(), token) {
                Some(value) => value,
                None => String::from_str("ERR"),
            }
        } else if token.id == String::from_str("HARVEST_SUBDIR") || token.id == String::from_str(
            "HARVEST_EACH_SUBDIR",
        ) || token.id == String::from_str("DEFINE_TEMPLATE_VAR") || token.id == String::from_str(
            "TEMPLATE_VAR",
        ) {
            String::from_str("UNIMPLEMENTED")
        } else {
            String::from_str("ERR")
        }
    }
}

/// The dispatch over the directives without parameter groups.
fn evaluate_plain_directive(
    token: &Token,
    file_context: &FileContext,
    config: &Config,
    environment: &Environment,
) -> (r: String)
    ensures
        r@ == eval_plain_spec(token@, file_context@, config@, environment@),
{
    {
        if token.id == String::from_str("FILE_NAME") {
            file_context.name_with_extension()
        } else if token.id == String::from_str("FILE_NAME_AS_TYPE") {
            let expanded = file_context.expand_with_enumerations();
            string_in_pascal_case(expanded.as_str())
        } else if token.id == String::from_str("FILE_NAME_WITHOUT_EXTENSION") {
            file_context.name.clone()
        } else if token.id == String::from_str("PARTNER_FILE") {
            if file_context.extension.as_str().is_empty() {
                return String::from_str("ERR");
            }
            match lookup_value(&config.partner_file_map, file_context.extension.as_str()) {
                Some(partner) => {
                    let mut out = file_context.name.clone();
                    push_char(&mut out, '.');
                    out.concat(partner.as_str())
                },
                None => String::from_str("ERR"),
            }
        } else if token.id == String::from_str("EXTENSION") {
            file_context.extension.clone()
        } else if token.id == String::from_str("DIR") {
            replace_if_not_none_empty_default(&environment.current_dir_name)
        } else if token.id == String::from_str("DIR_AS_TYPE") {
            let dir = replace_if_not_none_empty_default(&environment.current_dir_name);
            string_in_pascal_case(dir.as_str())
        } else if token.id == String::from_str("PWD") {
            replace_if_not_none_empty_default(&environment.current_path)
        } else if token.id == String::from_str("PATH") {
            String::from_str(".")
        } else if token.id == String::from_str("CURRENT_DATE") {
            date_text(
                environment.now.year,
                environment.now.month,
                environment.now.day,
                "%m-%d-%Y",
            )
        } else if token.id == String::from_str("CURRENT_TIME") {
            time_text(environment.now.hour, environment.now.minute, environment.now.second, "%H:%M")
        } else if token.id == String::from_str("PLATFORM") {
            match &file_context.enumerations.platform {
                Some(platform) => platform.clone(),
                None => String::from_str("ERR"),
            }
        } else if token.id == String::from_str("LANGUAGE") {
            match &file_context.enumerations.language {
                Some(language) => language.clone(),
                None => String::from_str("ERR"),
            }
        } else if token.id == String::from_str("ENUMERATION") {
            match &file_context.enumerations.user_defined {
                Some(user_defined) => user_defined.clone(),
                None => String::from_str("ERR"),
            }
        } else if token.id == String::from_str("USER") {
            environment.user.clone()
        } else if token.id == String::from_str("OS") {
            environment.os.clone()
        } else if token.id == String::from_str("DEVICE_NAME") {
            environment.device_name.clone()
        } else if token.id == String::from_str("VERSION") {
            environment.version.clone()
        } else {
            String::from_str("ERR")
        }
    }
}

/// The option's text, or empty text where there is none.
fn replace_if_not_none_empty_default(replacement_val: &Option<String>) -> (r: String)
    ensures
        r@ == opt_or_empty(replacement_val.deep_view()),
{
    proof {
        reveal_strlit("");
        assert(""@ =~= Seq::<char>::empty());
    }
    replace_if_not_none("", replacement_val)
}

/// The per-file loop from `idx` on: body driven under each file's derived
/// context, a line separator after each.
fn for_each_files(
    files: &Vec<HarvestedFile>,
    idx: usize,
    body: &str,
    outer: &FileContext,
    config: &Config,
    environment: &Environment,
    depth: u32,
) -> (r: String)
    requires
        depth >= 1,
        idx <= files.len(),
    ensures
        r@ == for_each_spec(
            files.deep_view().skip(idx as int),
            body@,
            outer@,
            config@,
            environment@,
            depth as nat,
        ),
    decreases depth, 0int, 0int, files.len() - idx,
{
    let ghost fv = files.deep_view();
    if idx >= files.len() {
        proof {
            assert(fv.skip(idx as int) =~= Seq::<HarvestedFileView>::empty());
        }
        return String::new();
    }
    let file = &files[idx];
    let harvest_file_context = FileContext {
        name: replace_if_not_none("", &file.file_name),
        extension: replace_if_not_none("", &file.extension),
        path: replace_if_not_none("", &file.path),
        enumerations: FileEnumeration::blank(),
    };
    proof {
        reveal_strlit("");
        assert(""@ =~= Seq::<char>::empty());
        assert(harvest_file_context@ == derived_context_spec(fv[idx as int]));
        assert(fv.skip(idx as int)[0] == fv[idx as int]);
        assert(fv.skip(idx as int).drop_first() =~= fv.skip(idx as int + 1));
    }
    let mut piece = replace_sub_symbols_at(
        body,
        &harvest_file_context,
        Some(outer),
        config,
        environment,
        depth - 1,
        SUBSTITUTION_FUEL,
    );
    push_char(&mut piece, '\n');
    let rest = for_each_files(files, idx + 1, body, outer, config, environment, depth);
    let result = piece.concat(rest.as_str());
    proof {
        assert(result@ =~= for_each_spec(
            fv.skip(idx as int),
            body@,
            outer@,
            config@,
            environment@,
            depth as nat,
        ));
    }
    result
}

/// Builds the banner box around the fully substituted message.
fn create_banner(
    banner_symbol: &str,
    banner_text: &str,
    file_context: &FileContext,
    config: &Config,
    environment: &Environment,
    depth: u32,
) -> (r: String)
    requires
        depth >= 1,
    ensures
        r@ == banner_text_spec(
            banner_symbol@,
            drive_spec(
                banner_text@,
                file_context@,
                None,
                config@,
                environment@,
                (depth - 1) as nat,
                SUBSTITUTION_FUEL as nat,
            ),
        ),
    decreases depth, 0int, 0int, 0int,
{
    let message = replace_sub_symbols_at(
        banner_text,
        file_context,
        None,
        config,
        environment,
        depth - 1,
        SUBSTITUTION_FUEL,
    );
    let message_len = message.as_str().unicode_len();
    let mut banner = String::new();
    append_repeated(&mut banner, banner_symbol, message_len);
    append_repeated(&mut banner, banner_symbol, 4);
    push_char(&mut banner, '\n');
    banner = banner.concat(banner_symbol);
    push_char(&mut banner, ' ');
    banner = banner.concat(message.as_str());
    push_char(&mut banner, ' ');
    banner = banner.concat(banner_symbol);
    push_char(&mut banner, '\n');
    append_repeated(&mut banner, banner_symbol, message_len);
    append_repeated(&mut banner, banner_symbol, 4);
    push_char(&mut banner, '\n');
    proof {
        lemma_repeat_add(banner_symbol@, message_len as nat, 4);
        assert(banner@ =~= banner_text_spec(banner_symbol@, message@));
    }
    banner
}

/// The pipeline, `pascal` first, over the token's first parameter group.
pub fn file_name_as_type_with_args(file_name: &str, token: &Token) -> (r: Option<String>)
    ensures
        r.deep_view() == file_name_as_type_args_spec(file_name@, token@),
{
    if !token.has_variables() {
        return None;
    }
    let ops = token.get_variable_at(0);
    format_append_and_remove_but_ensure_formatted_to_type(
        file_name,
        &ops,
        String::from_str("pascal"),
    )
}

/// The pipeline over the token's first parameter group, extension appended.
pub fn file_name_with_args(file_name: &str, token: &Token, extension: &str) -> (r: Option<String>)
    ensures
        r.deep_view() == file_name_args_spec(file_name@, token@, extension@),
{
    if !token.has_variables() {
        return None;
    }
    let ops = token.get_variable_at(0);
    if ops.len() == 0 {
        let mut out = String::from_str(file_name);
        push_char(&mut out, '.');
        return Some(out.concat(extension));
    }
    match format_append_and_remove(file_name, &ops) {
        Some(value) => {
            let mut out = value;
            push_char(&mut out, '.');
            Some(out.concat(extension))
        },
        None => None,
    }
}

/// The pipeline over the token's first parameter group.
pub fn file_name_without_extension_with_args(file_name: &str, token: &Token) -> (r: Option<String>)
    ensures
        r.deep_view() == file_name_without_extension_args_spec(file_name@, token@),
{
    if !token.has_variables() {
        return None;
    }
    let ops = token.get_variable_at(0);
    if ops.len() == 0 {
        return Some(String::from_str(file_name));
    }
    format_append_and_remove(file_name, &ops)
}

/// Every item trimmed.
fn trim_all(items: &Vec<String>) -> (r: Vec<String>)
    ensures
        r.deep_view() == trim_all_spec(items.deep_view()),
{
    let ghost dv = items.deep_view();
    let mut out: Vec<String> = Vec::new();
    let mut i: usize = 0;
    proof {
        assert(out.deep_view() =~= dv.take(0).map_values(|p: Seq<char>| trim_spec(p)));
    }
    while i < items.len()
        invariant
            i <= items.len(),
            dv == items.deep_view(),
            out.deep_view() == dv.take(i as int).map_values(|p: Seq<char>| trim_spec(p)),
        decreases items.len() - i,
    {
        let ghost pre = out.deep_view();
        out.push(trim(items[i].as_str()));
        proof {
            assert(out.deep_view() =~= pre.push(trim_spec(dv[i as int])));
            assert(dv.take(i as int + 1).map_values(|p: Seq<char>| trim_spec(p)) =~= dv.take(
                i as int,
            ).map_values(|p: Seq<char>| trim_spec(p)).push(trim_spec(dv[i as int])));
        }
        i += 1;
    }
    proof {
        assert(dv.take(items.len() as int) =~= dv);
    }
    out
}

/// The identity law: text without an opening bracket, or without a closing
/// one, holds no token, and the driver returns it unchanged.
pub proof fn lemma_driver_identity(
    text: Seq<char>,
    ctx: FileContextView,
    parent: Option<FileContextView>,
    cfg: ConfigView,
    env: EnvironmentView,
    depth: nat,
    fuel: nat,
)
    requires
        (forall|i: int| 0 <= i < text.len() ==> text[i] != '[') || (forall|i: int|
            0 <= i < text.len() ==> text[i] != ']'),
    ensures
        drive_spec(text, ctx, parent, cfg, env, depth, fuel) == text,
{
    if forall|i: int| 0 <= i < text.len() ==> text[i] != '[' {
        lemma_scan_no_open(text, 0, scan_init());
    } else {
        lemma_scan_no_close(text, 0, scan_init());
    }
}

/// The driver resolves every token: its result holds no complete token
/// span.  Either the final scan found nothing, or the pass budget ran out
/// with work remaining and the driver failed closed with the bracketless
/// error sentinel.  Raw unresolved tokens are never re-emitted; text an
/// `IMPORT` splices in re-enters the loop and is consumed the same way.
pub proof fn lemma_driver_leaves_no_token(
    text: Seq<char>,
    ctx: FileContextView,
    parent: Option<FileContextView>,
    cfg: ConfigView,
    env: EnvironmentView,
    depth: nat,
    fuel: nat,
)
    ensures
        find_first_token_spec(drive_spec(text, ctx, parent, cfg, env, depth, fuel)) is None,
    decreases fuel,
{
    if fuel == 0 {
        match find_first_token_spec(text) {
            None => {},
            Some(_) => {
                lemma_error_sentinel_has_no_token();
            },
        }
    } else {
        match find_first_token_spec(text) {
            None => {},
            Some((a, b)) => {
                lemma_scan_bounds(text, 0, scan_init());
                let spliced = text.subrange(0, a) + eval_token_spec(
                    text.subrange(a, b),
                    ctx,
                    parent,
                    cfg,
                    env,
                    depth,
                ) + text.subrange(b, text.len() as int);
                lemma_driver_leaves_no_token(
                    spliced,
                    ctx,
                    parent,
                    cfg,
                    env,
                    depth,
                    (fuel - 1) as nat,
                );
            },
        }
    }
}

/// The error sentinel holds no bracket, so no token.
proof fn lemma_error_sentinel_has_no_token()
    ensures
        find_first_token_spec("ERR"@) is None,
{
    reveal_strlit("ERR");
    assert forall|i: int| 0 <= i < "ERR"@.len() implies "ERR"@[i] != '[' by {
        assert("ERR"@[0] == 'E');
        assert("ERR"@[1] == 'R');
        assert("ERR"@[2] == 'R');
    }
    lemma_scan_no_open("ERR"@, 0, scan_init());
}

/// The paths named by the `IMPORT` tokens of `s`, in scanning order: what
/// the surrounding program must load before driving the text.
pub open spec fn collect_imports_spec(s: Seq<char>) -> Seq<Seq<char>>
    decreases s.len(),
{
    match find_first_token_spec(s) {
        None => Seq::empty(),
        Some((a, b)) => if 0 <= a && a < b && b <= s.len() {
            import_request_spec(s.subrange(a, b)) + collect_imports_spec(
                s.subrange(b, s.len() as int),
            )
        } else {
            Seq::empty()
        },
    }
}

/// The import path one token text requests, if any.
pub open spec fn import_request_spec(token_text: Seq<char>) -> Seq<Seq<char>> {
    match token_from_string_spec(token_text) {
        None => Seq::empty(),
        Some(t) => if t.id == "IMPORT"@ && t.variables is Some {
            seq![token_variable_string_spec(t, 0)]
        } else {
            Seq::empty()
        },
    }
}

/// Lists the import paths the text's tokens request, in order.
pub fn collect_import_paths(text: &str) -> (r: Vec<String>)
    ensures
        r.deep_view() == collect_imports_spec(text@),
{
    let mut out: Vec<String> = Vec::new();
    let mut rest: &str = text;
    proof {
        assert(out.deep_view() =~= Seq::<Seq<char>>::empty());
        assert(Seq::<Seq<char>>::empty() + collect_imports_spec(text@) =~= collect_imports_spec(
            text@,
        ));
    }
    loop
        invariant
            collect_imports_spec(text@) == out.deep_view() + collect_imports_spec(rest@),
        decreases rest@.len(),
    {
        let ghost old_dv = out.deep_view();
        match Parser::find_first_token(rest) {
            None => {
                proof {
                    assert(collect_imports_spec(rest@) =~= Seq::<Seq<char>>::empty());
                    assert(out.deep_view() + Seq::<Seq<char>>::empty() =~= out.deep_view());
                }
                return out;
            },
            Some(found_token) => {
                let n = rest.unicode_len();
                let token_text = rest.substring_char(found_token.start, found_token.end);
                match Token::from_string(token_text) {
                    Ok(token) => {
                        if token.id == String::from_str("IMPORT") && token.has_variables() {
                            out.push(token.get_variable_as_string(0));
                            proof {
                                assert(out.deep_view() =~= old_dv + import_request_spec(
                                    token_text@,
                                ));
                            }
                        } else {
                            proof {
                                assert(import_request_spec(token_text@) =~= Seq::<
                                    Seq<char>,
                                >::empty());
                                assert(out.deep_view() =~= old_dv + import_request_spec(
                                    token_text@,
                                ));
                            }
                        }
                    },
                    Err(_) => {
                        proof {
                            assert(import_request_spec(token_text@) =~= Seq::<Seq<char>>::empty());
                            assert(out.deep_view() =~= old_dv + import_request_spec(token_text@));
                        }
                    },
                }
                let new_rest = rest.substring_char(found_token.end, n);
                proof {
                    assert((old_dv + import_request_spec(token_text@)) + collect_imports_spec(
                        new_rest@,
                    ) =~= old_dv + (import_request_spec(token_text@) + collect_imports_spec(
                        new_rest@,
                    )));
                }
                rest = new_rest;
            },
        }
    }
}

} // verus!
