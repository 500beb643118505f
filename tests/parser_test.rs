use memobuild::dag::build_graph_from_instructions;
use memobuild::parser::{classify_line, parse_dockerfile, Instruction};

#[test]
fn test_dockerfile_parsing_simple() {
    let dockerfile = r#"
FROM alpine:latest
RUN echo "hello"
COPY . /app
RUN cd /app && ls
"#;

    let instructions = parse_dockerfile(dockerfile);
    assert_eq!(instructions.len(), 4);
}

#[test]
fn test_multi_stage_build_structure() {
    let dockerfile = r#"
FROM node:16 AS builder
WORKDIR /app
COPY . .
RUN npm run build

FROM nginx:alpine
COPY --from=builder /app/dist /usr/share/nginx/html
"#;

    let instructions = parse_dockerfile(dockerfile);
    assert!(instructions.len() >= 2);
}

#[test]
fn test_run_command_dependency_chain() {
    let dockerfile = r#"
FROM alpine
RUN apk add --no-cache python3
RUN python3 --version
"#;

    let instructions = parse_dockerfile(dockerfile);
    let dag = build_graph_from_instructions(instructions, "/work");

    for i in 1..dag.nodes.len() {
        if !dag.nodes[i].deps.is_empty() {
            assert!(dag.nodes[i].deps[0] < i);
        }
    }
}

#[test]
fn parser_fidelity() {
    let text = "FROM alpine:3.18\nWORKDIR /app\nCOPY . /app\nRUN echo hi\n";
    let ins = parse_dockerfile(text);
    assert_eq!(
        ins,
        vec![
            Instruction::From("alpine:3.18".to_string()),
            Instruction::Workdir("/app".to_string()),
            Instruction::Copy(".".to_string(), "/app".to_string()),
            Instruction::Run("echo hi".to_string()),
        ]
    );
}

#[test]
fn comments_blank_and_malformed_lines_are_dropped() {
    let text = "# a comment\n\n   \nFROM\nCOPY onlyone\nWORKDIR\nENV NOVALUE\nFROM  busybox  \n";
    let ins = parse_dockerfile(text);
    assert_eq!(ins, vec![Instruction::From("busybox".to_string())]);
}

#[test]
fn keywords_are_case_insensitive() {
    let ins = parse_dockerfile("from ubuntu\nrun make  all \r\ncmd ./serve --port 80");
    assert_eq!(
        ins,
        vec![
            Instruction::From("ubuntu".to_string()),
            Instruction::Run("make  all".to_string()),
            Instruction::Cmd("./serve --port 80".to_string()),
        ]
    );
}

#[test]
fn env_splits_on_first_space_or_equals() {
    let ins = parse_dockerfile("ENV A=b=c\nENV KEY some value\nENV EMPTY=");
    assert_eq!(
        ins,
        vec![
            Instruction::Env("A".to_string(), "b=c".to_string()),
            Instruction::Env("KEY".to_string(), "some value".to_string()),
            Instruction::Env("EMPTY".to_string(), "".to_string()),
        ]
    );
}

#[test]
fn git_target_defaults_to_dot() {
    let ins = parse_dockerfile("GIT https://x/repo.git\nGIT https://x/a.git dir extra\nGIT");
    assert_eq!(
        ins,
        vec![
            Instruction::Git("https://x/repo.git".to_string(), ".".to_string()),
            Instruction::Git("https://x/a.git".to_string(), "dir".to_string()),
        ]
    );
}

#[test]
fn unknown_keyword_keeps_trimmed_line() {
    let ins = parse_dockerfile("  EXPOSE 8080  \nRUN");
    assert_eq!(
        ins,
        vec![Instruction::Other("EXPOSE 8080".to_string()), Instruction::Run("".to_string())]
    );
}

#[test]
fn classify_with_given_keyword() {
    let t: Vec<char> = "copy a b".chars().collect();
    let kw: Vec<char> = "COPY".chars().collect();
    assert_eq!(
        classify_line(&t, &kw),
        Some(Instruction::Copy("a".to_string(), "b".to_string()))
    );
    let other: Vec<char> = "LABEL".chars().collect();
    assert_eq!(classify_line(&t, &other), Some(Instruction::Other("copy a b".to_string())));
}

#[test]
fn test_dag_building_from_dockerfile() {
    let dockerfile = r#"
FROM node:16
WORKDIR /app
COPY package.json .
RUN npm install
COPY . .
RUN npm run build
"#;

    let instructions = parse_dockerfile(dockerfile);
    let dag = build_graph_from_instructions(instructions, "/work");

    assert_eq!(dag.nodes.len(), 6);

    assert!(!dag.topological_order().is_empty());
}
