//! The files a new project starts with, for each project type: the
//! directories to create and the files to write, relative to the project
//! directory. Creating and writing them happens around this module.
use vstd::prelude::*;
use crate::models::ProjectType;
use crate::text::to_owned_string;

verus! {

/// README of a desktop project.
pub const DESKTOP_README_MD: &'static str = r#"# Tauri 桌面应用

本项目由 DeepSeek Code Agent 生成。

## 开发

```bash
npm install
npm run tauri dev
```

## 构建

```bash
npm run tauri build
```
"#;

/// README of a website project.
pub const WEB_README_MD: &'static str = r#"# Axum + Vue3 网站

本项目由 DeepSeek Code Agent 生成。

## 技术栈
- Rust + Axum（后端 API）
- Vue3 + Vite（前端）
- Tauri（管理桌面端，可选）
- SQLite（数据库）

## 目录结构

```
.
├── Cargo.toml          # Rust 后端配置
├── src/main.rs         # Axum 后端入口
└── frontend/           # Vue3 前端
    ├── package.json
    ├── vite.config.js
    ├── index.html
    └── src/
        ├── main.js
        └── App.vue
```

## 开发

```bash
# 启动后端（默认端口 3000）
cargo run

# 启动前端（在 frontend 目录下，默认端口 5173）
cd frontend
npm install
npm run dev
```

## 构建

```bash
# 构建前端
cd frontend
npm run build

# 构建后端（会自动打包 dist 目录）
cd ..
cargo build --release
```
"#;

/// Cargo manifest of a website project's backend.
pub const WEB_CARGO_TOML: &'static str = r#"[package]
name = "web-app"
version = "0.1.0"
edition = "2021"

[dependencies]
axum = "0.8"
tokio = { version = "1", features = ["full"] }
tower = "0.5"
tower-http = { version = "0.6", features = ["fs", "cors"] }
serde = { version = "1", features = ["derive"] }
serde_json = "1"
rusqlite = { version = "0.34", features = ["bundled"] }
anyhow = "1"
tracing = "0.1"
tracing-subscriber = "0.3"
"#;

/// Backend entry point of a website project.
pub const WEB_MAIN_RS: &'static str = r#"use axum::{
    routing::get,
    Router,
};
use std::net::SocketAddr;
use tower_http::{cors::CorsLayer, services::ServeDir};

#[tokio::main]
async fn main() {
    tracing_subscriber::fmt::init();

    let app = Router::new()
        .route("/api/hello", get(hello))
        .fallback_service(ServeDir::new("frontend/dist"))
        .layer(CorsLayer::permissive());

    let addr = SocketAddr::from(([127, 0, 0, 1], 3000));
    tracing::info!("listening on {}", addr);

    let listener = tokio::net::TcpListener::bind(addr).await.unwrap();
    axum::serve(listener, app).await.unwrap();
}

async fn hello() -> &'static str {
    "Hello from DeepSeek Code Agent!"
}
"#;

/// Frontend package manifest of a website project.
pub const WEB_FRONTEND_PACKAGE_JSON: &'static str = r#"{
  "name": "frontend",
  "private": true,
  "version": "0.1.0",
  "type": "module",
  "scripts": {
    "dev": "vite",
    "build": "vite build",
    "preview": "vite preview"
  },
  "dependencies": {
    "vue": "^3.5.13"
  },
  "devDependencies": {
    "@vitejs/plugin-vue": "^5.2.1",
    "vite": "^6.0.3"
  }
}
"#;

/// Frontend build configuration of a website project.
pub const WEB_FRONTEND_VITE_CONFIG: &'static str = r#"import { defineConfig } from 'vite'
import vue from '@vitejs/plugin-vue'

export default defineConfig({
  plugins: [vue()],
})
"#;

/// Frontend page of a website project.
pub const WEB_FRONTEND_INDEX_HTML: &'static str = r#"<!doctype html>
<html lang="zh-CN">
  <head>
    <meta charset="UTF-8" />
    <meta name="viewport" content="width=device-width, initial-scale=1.0" />
    <title>DeepSeek Code Agent 网站</title>
  </head>
  <body>
    <div id="app"></div>
    <script type="module" src="/src/main.js"></script>
  </body>
</html>
"#;

/// Frontend entry script of a website project.
pub const WEB_FRONTEND_MAIN_JS: &'static str = r#"import { createApp } from 'vue'
import App from './App.vue'

createApp(App).mount('#app')
"#;

/// Frontend root component of a website project.
pub const WEB_FRONTEND_APP_VUE: &'static str = r#"<script setup>
import { ref, onMounted } from 'vue'

const message = ref('Loading...')

onMounted(async () => {
  try {
    const res = await fetch('/api/hello')
    message.value = await res.text()
  } catch (e) {
    message.value = '无法连接后端服务'
  }
})
</script>

<template>
  <div style="font-family: sans-serif; text-align: center; padding: 40px;">
    <h1>{{ message }}</h1>
    <p>由 DeepSeek Code Agent 生成的 Vue3 网站</p>
  </div>
</template>

<style scoped>
h1 {
  color: #2563eb;
}
</style>
"#;

/// A file to write: its path relative to the project directory, and its
/// content.
#[derive(Debug)]
pub struct TemplateFile {
    pub path: String,
    pub content: String,
}

/// What setting up a project's template does: create these directories
/// (relative to the project directory; the empty path is the project
/// directory itself), then write these files, in order.
#[derive(Debug)]
pub struct TemplatePlan {
    pub dirs: Vec<String>,
    pub files: Vec<TemplateFile>,
}

/// The directories of a project type's template.
pub open spec fn template_dirs(t: ProjectType) -> Seq<Seq<char>> {
    match t {
        ProjectType::Desktop => seq![""@],
        ProjectType::Website => seq![""@, "src"@, "frontend/src"@],
    }
}

/// The files of a project type's template: path and content.
pub open spec fn template_files(t: ProjectType) -> Seq<(Seq<char>, Seq<char>)> {
    match t {
        ProjectType::Desktop => seq![("README.md"@, DESKTOP_README_MD@)],
        ProjectType::Website => seq![
            ("README.md"@, WEB_README_MD@),
            ("Cargo.toml"@, WEB_CARGO_TOML@),
            ("src/main.rs"@, WEB_MAIN_RS@),
            ("frontend/package.json"@, WEB_FRONTEND_PACKAGE_JSON@),
            ("frontend/vite.config.js"@, WEB_FRONTEND_VITE_CONFIG@),
            ("frontend/index.html"@, WEB_FRONTEND_INDEX_HTML@),
            ("frontend/src/main.js"@, WEB_FRONTEND_MAIN_JS@),
            ("frontend/src/App.vue"@, WEB_FRONTEND_APP_VUE@),
        ],
    }
}

fn file(path: &str, content: &str) -> (f: TemplateFile)
    ensures
        f.path@ == path@,
        f.content@ == content@,
{
    TemplateFile { path: to_owned_string(path), content: to_owned_string(content) }
}

/// The directories and files of a project type's template.
pub fn template_plan(project_type: ProjectType) -> (p: TemplatePlan)
    ensures
        p.dirs@.map_values(|d: String| d@) == template_dirs(project_type),
        p.files@.map_values(|f: TemplateFile| (f.path@, f.content@)) == template_files(project_type),
{
    let mut dirs: Vec<String> = Vec::new();
    let mut files: Vec<TemplateFile> = Vec::new();
    match project_type {
        ProjectType::Desktop => {
            dirs.push(to_owned_string(""));
            files.push(file("README.md", DESKTOP_README_MD));
        },
        ProjectType::Website => {
            dirs.push(to_owned_string(""));
            dirs.push(to_owned_string("src"));
            dirs.push(to_owned_string("frontend/src"));
            files.push(file("README.md", WEB_README_MD));
            files.push(file("Cargo.toml", WEB_CARGO_TOML));
            files.push(file("src/main.rs", WEB_MAIN_RS));
            files.push(file("frontend/package.json", WEB_FRONTEND_PACKAGE_JSON));
            files.push(file("frontend/vite.config.js", WEB_FRONTEND_VITE_CONFIG));
            files.push(file("frontend/index.html", WEB_FRONTEND_INDEX_HTML));
            files.push(file("frontend/src/main.js", WEB_FRONTEND_MAIN_JS));
            files.push(file("frontend/src/App.vue", WEB_FRONTEND_APP_VUE));
        },
    }
    assert(dirs@.map_values(|d: String| d@) =~= template_dirs(project_type));
    assert(files@.map_values(|f: TemplateFile| (f.path@, f.content@)) =~= template_files(project_type));
    TemplatePlan { dirs, files }
}

} // verus!
