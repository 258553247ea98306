use shellfs::commands::{Command, ExecError, LsCmd, MkdirCmd, RmdirCmd, TouchCmd};
use shellfs::lexer::Lexer;
use shellfs::parser::{Argument, NodePathSegment, Parser};
use shellfs::tree::{build_tree, Context, Node};

fn execute_one(ctx: &mut Context, command: &Command) -> Result<(), ExecError> {
    match command {
        Command::Cd(c) => c.execute(ctx),
        Command::Ls(c) => c.execute(ctx).map(|_| ()),
        Command::Touch(c) => c.execute(ctx),
        Command::Mkdir(c) => c.execute(ctx),
        Command::Rm(c) => c.execute(ctx),
        Command::Rmdir(c) => c.execute(ctx),
    }
}

fn run_line(ctx: &mut Context, line: &str) -> Vec<Result<(), ExecError>> {
    let mut cmd_lexer = Lexer::new(line);
    let tokens = cmd_lexer.tokenize();
    let mut parser = Parser::new(tokens);
    let commands = parser.generate_commands().expect("the line should parse");
    commands.iter().map(|c| execute_one(ctx, c)).collect()
}

fn child_names(ctx: &Context, dir: &str) -> Vec<String> {
    let args: Vec<Argument> = if dir.is_empty() {
        Vec::new()
    } else {
        vec![Argument::Path(vec![NodePathSegment::Dir(String::from(dir))])]
    };
    let ls = LsCmd::build(&args).unwrap();
    ls.execute(ctx)
        .expect("the listing should succeed")
        .into_iter()
        .map(|e| e.name)
        .collect()
}

#[test]
fn folder_file_size() {
    let mut ctx = Context::new();
    let folder = Node::new_folder("folder");
    assert_eq!(folder.size().unwrap(), 0);

    let folder_index = ctx.add(0, folder).unwrap();

    let file = Node::new_file("file", 2);
    let other_file = Node::new_file("file", 3);

    ctx.add(folder_index, file).unwrap();
    ctx.add(folder_index, other_file).unwrap();

    assert_eq!(ctx.node(folder_index).unwrap().size().unwrap(), 5);
}

#[test]
fn navigate_valid() {
    let ctx = build_tree("test_user");
    let result = ctx.node_from_path(&vec![NodePathSegment::Dir("documents".to_string())]);
    assert!(result.is_ok());
}

#[test]
fn navigate_invalid() {
    let ctx = build_tree("test_user");
    let result = ctx.node_from_path(&vec![NodePathSegment::Dir("abcdefg".to_string())]);
    assert!(result.is_err());
}

#[test]
fn resolve_is_pure() {
    // resolving the same path twice from the same directory lands on the
    // same node
    let ctx = build_tree("test_user");
    let path = vec![
        NodePathSegment::Dir("photos".to_string()),
        NodePathSegment::Dir("japan2026".to_string()),
    ];
    let first = ctx.node_from_path(&path).unwrap();
    let second = ctx.node_from_path(&path).unwrap();
    assert_eq!(first, second);
}

#[test]
fn initial_tree_shape() {
    let ctx = build_tree("user1");
    // the prompt path of the starting directory
    assert_eq!(
        ctx.current_path_names(),
        vec![String::from("home"), String::from("user1")]
    );
    // the user folder aggregates only the sizes known when its stock
    // folders were inserted
    let user = ctx.current_dir();
    assert_eq!(ctx.node(user).unwrap().size().unwrap(), 12);
    assert_eq!(
        child_names(&ctx, ""),
        vec!["documents", "downloads", "music", "photos"]
    );
}

#[test]
fn folder_size_accumulates_on_touch() {
    let mut ctx = build_tree("user1");
    let results = run_line(
        &mut ctx,
        "mkdir docs && touch docs/a.txt 5 && touch docs/b.txt 3",
    );
    assert!(results.iter().all(|r| r.is_ok()));

    let docs = ctx
        .node_from_path(&vec![NodePathSegment::Dir("docs".to_string())])
        .unwrap();
    assert_eq!(ctx.node(docs).unwrap().size().unwrap(), 8);
}

#[test]
fn mkdir_then_rmdir_restores_child_names() {
    let mut ctx = build_tree("user1");
    let before = child_names(&ctx, "");
    let user = ctx.current_dir();
    let size_before = ctx.node(user).unwrap().size().unwrap();

    assert_eq!(run_line(&mut ctx, "mkdir scratch"), vec![Ok(())]);
    assert_eq!(run_line(&mut ctx, "rmdir scratch"), vec![Ok(())]);

    let mut after = child_names(&ctx, "");
    let mut expected = before.clone();
    after.sort();
    expected.sort();
    assert_eq!(after, expected);
    // size bookkeeping on the parent is untouched on the way back
    assert_eq!(ctx.node(user).unwrap().size().unwrap(), size_before);
}

#[test]
fn root_stays_out_of_reach_and_holds_home() {
    let mut ctx = build_tree("user1");
    // a bare `/` is not a valid cd target: the line is rejected at parse
    // time and the current directory stays put
    let mut cmd_lexer = Lexer::new("cd /");
    let tokens = cmd_lexer.tokenize();
    let mut parser = Parser::new(tokens);
    assert!(parser.generate_commands().is_err());

    // stepping up from the user folder lands on home; listing its parent
    // (the root) shows exactly the home folder
    assert_eq!(run_line(&mut ctx, "cd .."), vec![Ok(())]);
    let ls = LsCmd::build(&[Argument::Path(vec![NodePathSegment::Parent])]).unwrap();
    let entries = ls.execute(&ctx).unwrap();
    let names: Vec<String> = entries.into_iter().map(|e| e.name).collect();
    assert_eq!(names, vec![String::from("home")]);

    // the root itself cannot become the current directory
    let cd_up = run_line(&mut ctx, "cd ..");
    assert_eq!(cd_up, vec![Err(ExecError::RootTarget)]);
}

#[test]
fn rmdir_refuses_a_target_above_the_current_directory() {
    let mut ctx = build_tree("user1");
    assert_eq!(run_line(&mut ctx, "cd documents"), vec![Ok(())]);

    // the removal's resolved parent (the user folder) is less deep than
    // the current directory, so nothing is touched
    let rmdir = RmdirCmd::build(&[Argument::Path(vec![
        NodePathSegment::Parent,
        NodePathSegment::Dir("downloads".to_string()),
    ])])
    .unwrap();
    assert_eq!(rmdir.execute(&mut ctx), Err(ExecError::DepthOrder));

    assert_eq!(run_line(&mut ctx, "cd .."), vec![Ok(())]);
    assert_eq!(
        child_names(&ctx, ""),
        vec!["documents", "downloads", "music", "photos"]
    );
}

#[test]
fn cd_reports_missing_paths_and_moves_on_success() {
    let mut ctx = build_tree("user1");
    assert_eq!(
        run_line(&mut ctx, "cd nowhere"),
        vec![Err(ExecError::PathNotFound)]
    );
    assert_eq!(run_line(&mut ctx, "cd music"), vec![Ok(())]);
    assert_eq!(
        ctx.current_path_names(),
        vec![
            String::from("home"),
            String::from("user1"),
            String::from("music")
        ]
    );
}

#[test]
fn ls_lists_names_kinds_and_sizes() {
    let mut ctx = build_tree("user1");
    assert_eq!(run_line(&mut ctx, "cd documents"), vec![Ok(())]);
    let ls = LsCmd::build(&[]).unwrap();
    let entries = ls.execute(&ctx).unwrap();
    assert_eq!(entries.len(), 2);
    assert_eq!(entries[0].name, "cv.pdf");
    assert!(!entries[0].is_folder);
    assert_eq!(entries[0].size, 1);
    assert_eq!(entries[1].name, "data.dat");
}

#[test]
fn mkdir_on_a_file_is_refused() {
    let mut ctx = build_tree("user1");
    assert_eq!(run_line(&mut ctx, "cd documents"), vec![Ok(())]);
    // "cv.pdf" resolves to a file, which cannot take a folder
    let mkdir = MkdirCmd::build(&[Argument::Path(vec![
        NodePathSegment::Dir("cv.pdf".to_string()),
        NodePathSegment::Dir("x".to_string()),
    ])])
    .unwrap();
    assert_eq!(mkdir.execute(&mut ctx), Err(ExecError::NotAFolder));
}

#[test]
fn mkdir_rejects_names_over_twelve_characters() {
    let mut ctx = build_tree("user1");
    assert_eq!(
        run_line(&mut ctx, "mkdir thirteenchars"),
        vec![Err(ExecError::NameTooLong)]
    );
}

#[test]
fn rm_removes_files_and_reports_missing_names() {
    let mut ctx = build_tree("user1");
    assert_eq!(run_line(&mut ctx, "cd documents"), vec![Ok(())]);
    assert_eq!(
        run_line(&mut ctx, "rm nofile.txt"),
        vec![Err(ExecError::NotFound)]
    );
    assert_eq!(run_line(&mut ctx, "rm cv.pdf"), vec![Ok(())]);
    assert_eq!(child_names(&ctx, ""), vec!["data.dat"]);
}

#[test]
fn touch_policy_checks_run_in_order() {
    let mut ctx = build_tree("user1");

    let spaced = TouchCmd::build(&[Argument::Path(vec![NodePathSegment::File(
        "a b.png".to_string(),
    )])])
    .unwrap();
    assert_eq!(spaced.execute(&mut ctx), Err(ExecError::NameHasSpace));

    assert_eq!(
        run_line(&mut ctx, "touch averylongfilename.png"),
        vec![Err(ExecError::NameTooLong)]
    );
    assert_eq!(
        run_line(&mut ctx, "touch big.png 4194304"),
        vec![Err(ExecError::SizeTooLarge)]
    );
    assert_eq!(
        run_line(&mut ctx, "touch zero.png 0"),
        vec![Err(ExecError::SizeZero)]
    );
    assert_eq!(
        run_line(&mut ctx, "touch short.pn 1"),
        vec![Err(ExecError::BadExtension)]
    );
    assert_eq!(
        run_line(&mut ctx, "touch nodir/a.png 1"),
        vec![Err(ExecError::PathNotFound)]
    );
    assert_eq!(run_line(&mut ctx, "touch fine.png 7"), vec![Ok(())]);
}

#[test]
fn touch_refuses_overflowing_a_folder_size() {
    let mut ctx = Context::new();
    let big = ctx.add(0, Node::new_folder("big")).unwrap();
    ctx.add(big, Node::new_file("huge.bin", usize::MAX)).unwrap();

    let touch = TouchCmd::build(&[
        Argument::Path(vec![
            NodePathSegment::Dir("big".to_string()),
            NodePathSegment::File("one.txt".to_string()),
        ]),
        Argument::Number(1),
    ])
    .unwrap();
    assert_eq!(touch.execute(&mut ctx), Err(ExecError::SizeOverflow));
}

#[test]
fn default_touch_size_is_one_kilobyte() {
    let mut ctx = build_tree("user1");
    assert_eq!(run_line(&mut ctx, "touch note.txt"), vec![Ok(())]);
    let ls = LsCmd::build(&[]).unwrap();
    let entries = ls.execute(&ctx).unwrap();
    let note = entries.iter().find(|e| e.name == "note.txt").unwrap();
    assert_eq!(note.size, 1);
    assert!(!note.is_folder);
}

#[test]
fn chained_commands_execute_left_to_right() {
    let mut ctx = build_tree("user1");
    let results = run_line(&mut ctx, "mkdir a && cd a && mkdir b && cd b");
    assert_eq!(results, vec![Ok(()), Ok(()), Ok(()), Ok(())]);
    assert_eq!(
        ctx.current_path_names(),
        vec![
            String::from("home"),
            String::from("user1"),
            String::from("a"),
            String::from("b")
        ]
    );
}
